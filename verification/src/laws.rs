//! The laws of the grammar, proved against its model `spec_parse`. Together
//! with the contract of `parse` — whose result is exactly `spec_parse` of the
//! input — they pin down how whole families of inputs are parsed.

use vstd::prelude::*;
use crate::ast::AvdlV;
use crate::error::{ErrV, Expected, ReasonV, RuleLabel, SpanV};
use crate::grammar::{
    close_at, kw, no_terminator, skip_ws_from, spec_parse, spec_parse_body,
    lemma_find_close_exact, lemma_ident_end_exact, lemma_prefix_match_exact, lemma_skip_ws_exact,
};
use crate::lex::{all_ws, is_ident, is_ws};

verus! {

/// Every input of the shape `<ws> protocol <ws> <ident> <ws> { ...` is
/// parsed up to the identifier as a protocol declaration: what remains is
/// decided by the braced body, whose scan starts exactly at the `{`.
proof fn lemma_protocol_head(
    w1: Seq<char>,
    w2: Seq<char>,
    name: Seq<char>,
    w3: Seq<char>,
    rest: Seq<char>,
)
    requires
        all_ws(w1),
        all_ws(w2),
        all_ws(w3),
        is_ident(name),
        rest.len() > 0,
        rest[0] == '{',
    ensures
        ({
            let s = w1 + kw() + w2 + name + w3 + rest;
            let e = w1.len() + kw().len() + w2.len() + name.len();
            let b = e + w3.len();
            &&& spec_parse(s) == spec_parse_body(s, e as int, name)
            &&& skip_ws_from(s, e as int) == b
            &&& s.len() == b + rest.len()
            &&& forall|x: int| b <= x < s.len() ==> #[trigger] s[x] == rest[x - b]
        }),
{
    let s = w1 + kw() + w2 + name + w3 + rest;
    let a0 = w1.len() as int;
    let a1 = a0 + 8;
    let a2 = a1 + w2.len();
    let a3 = a2 + name.len();
    let b = a3 + w3.len();
    let n = s.len() as int;
    assert(kw().len() == 8);
    assert(n == b + rest.len());
    assert forall|x: int| 0 <= x < a0 implies is_ws(#[trigger] s[x]) by {
        assert(s[x] == w1[x]);
    }
    assert forall|k: int| 0 <= k < 8 implies s[a0 + k] == #[trigger] kw()[k] by {}
    assert forall|x: int| a1 <= x < a2 implies is_ws(#[trigger] s[x]) by {
        assert(s[x] == w2[x - a1]);
    }
    assert forall|x: int| a2 <= x < a3 implies #[trigger] s[x] == name[x - a2] by {}
    assert forall|x: int| a3 <= x < b implies is_ws(#[trigger] s[x]) by {
        assert(s[x] == w3[x - a3]);
    }
    assert forall|x: int| b <= x < n implies #[trigger] s[x] == rest[x - b] by {}
    // leading whitespace ends at the keyword, which matches in full
    assert(s[a0] == 'p');
    lemma_skip_ws_exact(s, 0, a0);
    lemma_prefix_match_exact(s, a0, kw(), 8);
    // whitespace after the keyword ends at the identifier
    assert(s[a2] == name[0]);
    lemma_skip_ws_exact(s, a1, a2);
    // the identifier run ends where the name does
    assert forall|x: int| a2 + 1 <= x < a3 implies crate::lex::is_ident_char(
        #[trigger] s[x],
    ) by {
        assert(s[x] == name[x - a2]);
        assert(crate::lex::is_ident_char(name[x - a2]));
    }
    if a3 < b {
        assert(is_ws(s[a3]));
    } else {
        assert(s[a3] == '{');
    }
    lemma_ident_end_exact(s, a2 + 1, a3);
    assert(s.subrange(a2, a3) =~= name);
    // whitespace after the identifier ends at the opening brace
    assert(s[b] == '{');
    lemma_skip_ws_exact(s, a3, b);
}

/// Parsing is deterministic: any two results that the contract of `parse`
/// allows for the same character sequence are identical, so re-parsing the
/// same input yields a structurally identical tree or error.
pub proof fn lemma_parse_deterministic(s: Seq<char>, r1: Result<AvdlV, ErrV>, r2: Result<
    AvdlV,
    ErrV,
>)
    requires
        r1 == spec_parse(s),
        r2 == spec_parse(s),
    ensures
        r1 == r2,
{
}

/// Every valid protocol declaration — the keyword, an identifier and a
/// whitespace-only braced body, with arbitrary whitespace around each token —
/// parses to `Protocol` with that identifier as its name and an `Empty` body.
#[verifier::rlimit(60)]
pub proof fn lemma_protocol_accepted(
    w1: Seq<char>,
    w2: Seq<char>,
    name: Seq<char>,
    w3: Seq<char>,
    w4: Seq<char>,
    w5: Seq<char>,
)
    requires
        all_ws(w1),
        all_ws(w2),
        all_ws(w3),
        all_ws(w4),
        all_ws(w5),
        is_ident(name),
    ensures
        spec_parse(w1 + kw() + w2 + name + w3 + seq!['{'] + w4 + seq!['}'] + w5) == Ok::<
            AvdlV,
            ErrV,
        >(AvdlV::Protocol { name: name, body: Box::new(AvdlV::Empty) }),
{
    let rest = seq!['{'] + w4 + seq!['}'] + w5;
    assert(rest[0] == '{');
    lemma_protocol_head(w1, w2, name, w3, rest);
    let s = w1 + kw() + w2 + name + w3 + rest;
    let e = (w1.len() + kw().len() + w2.len() + name.len()) as int;
    let b = e + w3.len();
    let n = s.len() as int;
    let c2 = b + 1 + w4.len();
    // the body holds whitespace up to the closing brace
    assert forall|x: int| b + 1 <= x < c2 implies is_ws(#[trigger] s[x]) by {
        assert(s[x] == rest[x - b]);
        assert(rest[x - b] == w4[x - b - 1]);
    }
    assert(s[c2] == rest[c2 - b]);
    assert(rest[c2 - b] == '}');
    lemma_skip_ws_exact(s, b + 1, c2);
    // only whitespace follows the closing brace
    assert forall|x: int| c2 + 1 <= x < n implies is_ws(#[trigger] s[x]) by {
        assert(s[x] == rest[x - b]);
        assert(rest[x - b] == w5[x - c2 - 1]);
    }
    lemma_skip_ws_exact(s, c2 + 1, n);
    assert(s =~= w1 + kw() + w2 + name + w3 + seq!['{'] + w4 + seq!['}'] + w5);
}

/// An input whose braces hold any non-whitespace character before the
/// closing brace is rejected with a plain mismatch whose span starts at that
/// character — strictly inside the braces — and that expected `}`.
pub proof fn lemma_body_content_rejected(
    w1: Seq<char>,
    w2: Seq<char>,
    name: Seq<char>,
    w3: Seq<char>,
    w4: Seq<char>,
    c: char,
    suffix: Seq<char>,
)
    requires
        all_ws(w1),
        all_ws(w2),
        all_ws(w3),
        all_ws(w4),
        is_ident(name),
        !is_ws(c),
        c != '}',
    ensures
        ({
            let s = w1 + kw() + w2 + name + w3 + seq!['{'] + w4 + seq![c] + suffix;
            let b = (w1.len() + kw().len() + w2.len() + name.len() + w3.len()) as int;
            let m = b + 1 + w4.len();
            &&& spec_parse(s) == Err::<AvdlV, ErrV>(
                ErrV {
                    span: SpanV { start: m, end: m + 1 },
                    found: Some(c),
                    expected: seq![Expected::Token('}')],
                    label: Some(RuleLabel::Content),
                    reason: ReasonV::Unexpected,
                },
            )
            &&& b < m < s.len()
        }),
{
    let rest = seq!['{'] + w4 + seq![c] + suffix;
    assert(rest[0] == '{');
    lemma_protocol_head(w1, w2, name, w3, rest);
    let s = w1 + kw() + w2 + name + w3 + rest;
    let e = (w1.len() + kw().len() + w2.len() + name.len()) as int;
    let b = e + w3.len();
    let n = s.len() as int;
    let m = b + 1 + w4.len();
    // the scan inside the braces stops exactly at the offending character
    assert forall|x: int| b + 1 <= x < m implies is_ws(#[trigger] s[x]) by {
        assert(s[x] == rest[x - b]);
        assert(rest[x - b] == w4[x - b - 1]);
    }
    assert(s[m] == rest[m - b]);
    assert(rest[m - b] == c);
    lemma_skip_ws_exact(s, b + 1, m);
    assert(s =~= w1 + kw() + w2 + name + w3 + seq!['{'] + w4 + seq![c] + suffix);
}

/// An input whose opening brace is never closed is rejected with an
/// unclosed-delimiter error: the failure sits at the end of the input, and
/// the delimiter's own span covers the opening `{`.
pub proof fn lemma_unclosed_rejected(
    w1: Seq<char>,
    w2: Seq<char>,
    name: Seq<char>,
    w3: Seq<char>,
    w4: Seq<char>,
)
    requires
        all_ws(w1),
        all_ws(w2),
        all_ws(w3),
        all_ws(w4),
        is_ident(name),
    ensures
        ({
            let s = w1 + kw() + w2 + name + w3 + seq!['{'] + w4;
            let b = (w1.len() + kw().len() + w2.len() + name.len() + w3.len()) as int;
            &&& spec_parse(s) == Err::<AvdlV, ErrV>(
                ErrV {
                    span: SpanV { start: s.len() as int, end: s.len() as int },
                    found: None,
                    expected: seq![Expected::Token('}')],
                    label: Some(RuleLabel::Content),
                    reason: ReasonV::Unclosed {
                        open: SpanV { start: b, end: b + 1 },
                        delimiter: '{',
                    },
                },
            )
            &&& s[b] == '{'
        }),
{
    let rest = seq!['{'] + w4;
    assert(rest[0] == '{');
    lemma_protocol_head(w1, w2, name, w3, rest);
    let s = w1 + kw() + w2 + name + w3 + rest;
    let e = (w1.len() + kw().len() + w2.len() + name.len()) as int;
    let b = e + w3.len();
    let n = s.len() as int;
    // everything after the brace is whitespace, up to the very end
    assert forall|x: int| b + 1 <= x < n implies is_ws(#[trigger] s[x]) by {
        assert(s[x] == rest[x - b]);
        assert(rest[x - b] == w4[x - b - 1]);
    }
    lemma_skip_ws_exact(s, b + 1, n);
    assert(s =~= w1 + kw() + w2 + name + w3 + seq!['{'] + w4);
}

/// An input that is one block comment with no terminator inside its body,
/// surrounded by whitespace, parses to `Comment`.
pub proof fn lemma_comment_accepted(w1: Seq<char>, body: Seq<char>, w2: Seq<char>)
    requires
        all_ws(w1),
        all_ws(w2),
        no_terminator(body),
    ensures
        spec_parse(w1 + seq!['/', '*'] + body + seq!['*', '/'] + w2) == Ok::<AvdlV, ErrV>(
            AvdlV::Comment,
        ),
{
    let s = w1 + seq!['/', '*'] + body + seq!['*', '/'] + w2;
    let i0 = w1.len() as int;
    let q = i0 + 2 + body.len();
    let n = s.len() as int;
    assert(n == i0 + 2 + body.len() + 2 + w2.len());
    assert forall|x: int| 0 <= x < i0 implies is_ws(#[trigger] s[x]) by {
        assert(s[x] == w1[x]);
    }
    assert(s[i0] == '/');
    assert(s[i0 + 1] == '*');
    assert forall|x: int| i0 + 2 <= x < q implies s[x] == body[x - i0 - 2] by {}
    assert(s[q] == '*');
    assert(s[q + 1] == '/');
    assert forall|x: int| q + 2 <= x < n implies is_ws(#[trigger] s[x]) by {
        assert(s[x] == w2[x - q - 2]);
    }
    // leading whitespace ends at the opener, which starts no keyword
    assert(!is_ws('/'));
    lemma_skip_ws_exact(s, 0, i0);
    assert(kw()[0] == 'p');
    lemma_prefix_match_exact(s, i0, kw(), 0);
    // the first terminator is the one written after the body
    assert(close_at(s, q));
    assert forall|t: int| i0 + 2 <= t < q implies !close_at(s, t) by {
        if t < q - 1 {
            assert(s[t] == body[t - i0 - 2]);
            assert(s[t + 1] == body[t + 1 - i0 - 2]);
            assert(!(body[t - i0 - 2] == '*' && body[t - i0 - 2 + 1] == '/'));
        } else {
            assert(s[t + 1] == '*');
        }
    }
    lemma_find_close_exact(s, i0 + 2, q);
    // only whitespace follows the terminator
    lemma_skip_ws_exact(s, q + 2, n);
}

} // verus!
