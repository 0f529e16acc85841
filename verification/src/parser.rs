//! The executable parser. `parse` consumes a whole source text and returns
//! either the tree or the errors; it is proved to return exactly what the
//! grammar's model `spec_parse` yields, so success and failure — and every
//! field of the reported error — are pinned down by the model.

use vstd::prelude::*;
use vstd::string::StrSliceExecFns;
use vstd::string::StringExecFns;
use crate::ast::{Avdl, AvdlV};
use crate::error::{err_located, ErrV, Expected, ParseError, Reason, RuleLabel, Span};
use crate::grammar::{
    char_at, find_close_from, ident_end_from, kw, prefix_match_len, skip_ws_from, span_at,
    spec_finish, spec_parse, spec_parse_after_keyword, spec_parse_body, spec_parse_comment,
    top_error, lemma_find_close_exact, lemma_find_close_none, lemma_prefix_match_exact,
};
use crate::lex::{ident_char, ident_start_char, ws_char};

verus! {

/// The characters of a source text, in order.
fn chars_of(src: &str) -> (cs: Vec<char>)
    ensures
        cs@ == src@,
{
    let n = src.unicode_len();
    let mut cs: Vec<char> = Vec::new();
    let mut i: usize = 0;
    while i < n
        invariant
            i <= n,
            n == src@.len(),
            cs@ == src@.subrange(0, i as int),
        decreases n - i,
    {
        let c = src.get_char(i);
        cs.push(c);
        i = i + 1;
        assert(cs@ =~= src@.subrange(0, i as int));
    }
    assert(cs@ =~= src@);
    cs
}

/// The first position at or after `i` holding no whitespace character.
fn skip_ws_exec(cs: &Vec<char>, i: usize) -> (r: usize)
    requires
        i <= cs@.len(),
    ensures
        r as int == skip_ws_from(cs@, i as int),
        i <= r <= cs@.len(),
{
    let n = cs.len();
    let mut j = i;
    while j < n && ws_char(cs[j])
        invariant
            i <= j <= n,
            n == cs@.len(),
            skip_ws_from(cs@, i as int) == skip_ws_from(cs@, j as int),
        decreases n - j,
    {
        assert(skip_ws_from(cs@, j as int) == skip_ws_from(cs@, j + 1));
        j = j + 1;
    }
    assert(skip_ws_from(cs@, j as int) == j);
    j
}

/// The first position at or after `i` holding no identifier character.
fn ident_end_exec(cs: &Vec<char>, i: usize) -> (r: usize)
    requires
        i <= cs@.len(),
    ensures
        r as int == ident_end_from(cs@, i as int),
        i <= r <= cs@.len(),
{
    let n = cs.len();
    let mut j = i;
    while j < n && ident_char(cs[j])
        invariant
            i <= j <= n,
            n == cs@.len(),
            ident_end_from(cs@, i as int) == ident_end_from(cs@, j as int),
        decreases n - j,
    {
        assert(ident_end_from(cs@, j as int) == ident_end_from(cs@, j + 1));
        j = j + 1;
    }
    assert(ident_end_from(cs@, j as int) == j);
    j
}

/// The character of the keyword at position `k`.
fn kw_char(k: usize) -> (c: char)
    requires
        k < 8,
    ensures
        c == kw()[k as int],
{
    if k == 0 {
        'p'
    } else if k == 1 {
        'r'
    } else if k == 2 {
        'o'
    } else if k == 3 {
        't'
    } else if k == 4 {
        'o'
    } else if k == 5 {
        'c'
    } else if k == 6 {
        'o'
    } else {
        'l'
    }
}

/// How many characters of the keyword match `cs` starting at `i`.
fn kw_match_len(cs: &Vec<char>, i: usize) -> (r: usize)
    requires
        i <= cs@.len(),
    ensures
        r as int == prefix_match_len(cs@, i as int, kw()),
        r <= 8,
        i + r <= cs@.len(),
{
    let n = cs.len();
    let mut k: usize = 0;
    assert(kw().len() == 8);
    while k < 8
        invariant
            k <= 8,
            i + k <= n,
            n == cs@.len(),
            forall|j: int| 0 <= j < k ==> cs@[i + j] == #[trigger] kw()[j],
        decreases 8 - k,
    {
        if n - i <= k {
            proof {
                lemma_prefix_match_exact(cs@, i as int, kw(), k as int);
            }
            return k;
        }
        let c = cs[i + k];
        if c != kw_char(k) {
            proof {
                lemma_prefix_match_exact(cs@, i as int, kw(), k as int);
            }
            return k;
        }
        assert(cs@[i + k] == kw()[k as int]);
        k = k + 1;
    }
    proof {
        lemma_prefix_match_exact(cs@, i as int, kw(), 8);
    }
    k
}

/// The position of the first comment terminator at or after `i`, or the
/// input's length when there is none.
fn find_close_exec(cs: &Vec<char>, i: usize) -> (r: usize)
    requires
        i <= cs@.len(),
    ensures
        r as int == find_close_from(cs@, i as int),
        i <= r <= cs@.len(),
{
    let n = cs.len();
    let mut j = i;
    while j < n
        invariant
            i <= j <= n,
            n == cs@.len(),
            forall|t: int| i <= t < j ==> !crate::grammar::close_at(cs@, t),
        decreases n - j,
    {
        if j + 1 < n && cs[j] == '*' && cs[j + 1] == '/' {
            proof {
                lemma_find_close_exact(cs@, i as int, j as int);
            }
            return j;
        }
        assert(!crate::grammar::close_at(cs@, j as int));
        j = j + 1;
    }
    proof {
        assert forall|t: int| i <= t implies !crate::grammar::close_at(cs@, t) by {
            if t < n {
                assert(!crate::grammar::close_at(cs@, t));
            }
        }
        lemma_find_close_none(cs@, i as int);
    }
    n
}

/// The span of the single character at `j`, or the empty span at the end of
/// the input.
fn span_at_exec(cs: &Vec<char>, j: usize) -> (sp: Span)
    requires
        j <= cs@.len(),
    ensures
        sp@ == span_at(cs@, j as int),
{
    let n = cs.len();
    if j < n {
        Span { start: j, end: j + 1 }
    } else {
        Span { start: n, end: n }
    }
}

/// The character at `j`, or `None` at the end of the input.
fn char_at_exec(cs: &Vec<char>, j: usize) -> (c: Option<char>)
    requires
        j <= cs@.len(),
    ensures
        c == char_at(cs@, j as int),
{
    if j < cs.len() {
        Some(cs[j])
    } else {
        None
    }
}

/// The error reported when neither alternative opens the input.
fn top_error_exec(cs: &Vec<char>, i0: usize, pk: usize) -> (e: ParseError)
    requires
        i0 <= cs@.len(),
        pk as int == prefix_match_len(cs@, i0 as int, kw()),
        pk < 8,
        i0 + pk <= cs@.len(),
    ensures
        e@ == top_error(cs@, i0 as int, pk as int),
        err_located(e@, cs@.len() as int),
{
    let n = cs.len();
    if pk >= 1 {
        let mut expected: Vec<Expected> = Vec::new();
        expected.push(Expected::Token(kw_char(pk)));
        let e = ParseError {
            span: span_at_exec(cs, i0 + pk),
            found: char_at_exec(cs, i0 + pk),
            expected,
            label: Some(RuleLabel::Protocol),
            reason: Reason::Unexpected,
        };
        assert(e@.expected =~= seq![Expected::Token(kw()[pk as int])]);
        assert(e@ =~= top_error(cs@, i0 as int, pk as int));
        e
    } else if i0 < n && cs[i0] == '/' {
        let mut expected: Vec<Expected> = Vec::new();
        expected.push(Expected::Token('*'));
        let e = ParseError {
            span: span_at_exec(cs, i0 + 1),
            found: char_at_exec(cs, i0 + 1),
            expected,
            label: Some(RuleLabel::Comment),
            reason: Reason::Unexpected,
        };
        assert(e@.expected =~= seq![Expected::Token('*')]);
        assert(e@ =~= top_error(cs@, i0 as int, pk as int));
        e
    } else {
        let mut expected: Vec<Expected> = Vec::new();
        expected.push(Expected::Token('p'));
        expected.push(Expected::Token('/'));
        let e = ParseError {
            span: span_at_exec(cs, i0),
            found: char_at_exec(cs, i0),
            expected,
            label: None,
            reason: Reason::Unexpected,
        };
        assert(e@.expected =~= seq![Expected::Token('p'), Expected::Token('/')]);
        assert(e@ =~= top_error(cs@, i0 as int, pk as int));
        e
    }
}

/// Check that only trailing whitespace remains from `i`, and hand the tree
/// through.
fn finish_exec(cs: &Vec<char>, i: usize, tree: Avdl) -> (r: Result<Avdl, ParseError>)
    requires
        i <= cs@.len(),
    ensures
        match r {
            Ok(t) => spec_finish(cs@, i as int, tree@) == Ok::<AvdlV, ErrV>(t@),
            Err(e) => spec_finish(cs@, i as int, tree@) == Err::<AvdlV, ErrV>(e@)
                && err_located(e@, cs@.len() as int),
        },
{
    let n = cs.len();
    let p = skip_ws_exec(cs, i);
    if p == n {
        Ok(tree)
    } else {
        let mut expected: Vec<Expected> = Vec::new();
        expected.push(Expected::End);
        let e = ParseError {
            span: Span { start: p, end: p + 1 },
            found: Some(cs[p]),
            expected,
            label: None,
            reason: Reason::Unexpected,
        };
        assert(e@.expected =~= seq![Expected::End]);
        assert(spec_finish(cs@, i as int, tree@) == Err::<AvdlV, ErrV>(e@)) by {
            assert(e@ =~= spec_finish(cs@, i as int, tree@)->Err_0);
        }
        Err(e)
    }
}

/// Parse the braced body after the protocol name and the end of the input.
fn parse_body_exec(cs: &Vec<char>, e: usize, name: String) -> (r: Result<Avdl, ParseError>)
    requires
        e <= cs@.len(),
    ensures
        match r {
            Ok(t) => spec_parse_body(cs@, e as int, name@) == Ok::<AvdlV, ErrV>(t@),
            Err(err) => spec_parse_body(cs@, e as int, name@) == Err::<AvdlV, ErrV>(err@)
                && err_located(err@, cs@.len() as int),
        },
{
    let n = cs.len();
    let k = skip_ws_exec(cs, e);
    if k < n && cs[k] == '{' {
        let m = skip_ws_exec(cs, k + 1);
        if m < n && cs[m] == '}' {
            let tree = Avdl::Protocol(name, Box::new(Avdl::Empty));
            assert((Avdl::Empty)@ =~= AvdlV::Empty);
            assert(tree@ =~= AvdlV::Protocol { name: name@, body: Box::new(AvdlV::Empty) });
            finish_exec(cs, m + 1, tree)
        } else if m == n {
            let mut expected: Vec<Expected> = Vec::new();
            expected.push(Expected::Token('}'));
            let err = ParseError {
                span: Span { start: n, end: n },
                found: None,
                expected,
                label: Some(RuleLabel::Content),
                reason: Reason::Unclosed { open: Span { start: k, end: k + 1 }, delimiter: '{' },
            };
            assert(err@.expected =~= seq![Expected::Token('}')]);
            assert(err@ =~= spec_parse_body(cs@, e as int, name@)->Err_0);
            Err(err)
        } else {
            let mut expected: Vec<Expected> = Vec::new();
            expected.push(Expected::Token('}'));
            let err = ParseError {
                span: Span { start: m, end: m + 1 },
                found: Some(cs[m]),
                expected,
                label: Some(RuleLabel::Content),
                reason: Reason::Unexpected,
            };
            assert(err@.expected =~= seq![Expected::Token('}')]);
            assert(err@ =~= spec_parse_body(cs@, e as int, name@)->Err_0);
            Err(err)
        }
    } else {
        let mut expected: Vec<Expected> = Vec::new();
        expected.push(Expected::Token('{'));
        let err = ParseError {
            span: span_at_exec(cs, k),
            found: char_at_exec(cs, k),
            expected,
            label: Some(RuleLabel::Content),
            reason: Reason::Unexpected,
        };
        assert(err@.expected =~= seq![Expected::Token('{')]);
        assert(err@ =~= spec_parse_body(cs@, e as int, name@)->Err_0);
        Err(err)
    }
}

/// Parse the rest of a protocol declaration once the keyword has matched.
fn parse_after_keyword_exec(src: &str, cs: &Vec<char>, i: usize) -> (r: Result<Avdl, ParseError>)
    requires
        cs@ == src@,
        i <= cs@.len(),
    ensures
        match r {
            Ok(t) => spec_parse_after_keyword(cs@, i as int) == Ok::<AvdlV, ErrV>(t@),
            Err(err) => spec_parse_after_keyword(cs@, i as int) == Err::<AvdlV, ErrV>(err@)
                && err_located(err@, cs@.len() as int),
        },
{
    let n = cs.len();
    let j = skip_ws_exec(cs, i);
    if j < n && ident_start_char(cs[j]) {
        let e = ident_end_exec(cs, j + 1);
        let name = String::from_str(src.substring_char(j, e));
        assert(name@ == cs@.subrange(j as int, e as int));
        parse_body_exec(cs, e, name)
    } else {
        let err = ParseError {
            span: span_at_exec(cs, j),
            found: char_at_exec(cs, j),
            expected: Vec::new(),
            label: Some(RuleLabel::ProtocolName),
            reason: Reason::Unexpected,
        };
        assert(err@.expected =~= Seq::<Expected>::empty());
        assert(err@ =~= spec_parse_after_keyword(cs@, i as int)->Err_0);
        Err(err)
    }
}

/// Parse the rest of a comment once the opener has matched.
fn parse_comment_exec(cs: &Vec<char>, i: usize) -> (r: Result<Avdl, ParseError>)
    requires
        i <= cs@.len(),
    ensures
        match r {
            Ok(t) => spec_parse_comment(cs@, i as int) == Ok::<AvdlV, ErrV>(t@),
            Err(err) => spec_parse_comment(cs@, i as int) == Err::<AvdlV, ErrV>(err@)
                && err_located(err@, cs@.len() as int),
        },
{
    let n = cs.len();
    let t = find_close_exec(cs, i);
    if t < n {
        assert(crate::grammar::close_at(cs@, t as int)) by {
            crate::grammar::lemma_find_close_props(cs@, i as int);
        }
        finish_exec(cs, t + 2, Avdl::Comment)
    } else {
        let mut expected: Vec<Expected> = Vec::new();
        expected.push(Expected::Token('*'));
        let err = ParseError {
            span: Span { start: n, end: n },
            found: None,
            expected,
            label: Some(RuleLabel::Comment),
            reason: Reason::Unexpected,
        };
        assert(err@.expected =~= seq![Expected::Token('*')]);
        assert(err@ =~= spec_parse_comment(cs@, i as int)->Err_0);
        Err(err)
    }
}

/// Parse a whole source text: the result is exactly what the grammar's model
/// yields, and a failure carries exactly one error.
pub fn parse(src: &str) -> (r: Result<Avdl, Vec<ParseError>>)
    ensures
        match r {
            Ok(t) => spec_parse(src@) == Ok::<AvdlV, ErrV>(t@),
            Err(errs) => errs@.len() == 1 && spec_parse(src@) == Err::<AvdlV, ErrV>(errs@[0]@)
                && err_located(errs@[0]@, src@.len() as int),
        },
{
    let cs = chars_of(src);
    let n = cs.len();
    let i0 = skip_ws_exec(&cs, 0);
    let pk = kw_match_len(&cs, i0);
    let inner: Result<Avdl, ParseError> = if pk == 8 {
        assert(pk as int == kw().len());
        parse_after_keyword_exec(src, &cs, i0 + pk)
    } else if i0 < n && cs[i0] == '/' && i0 + 1 < n && cs[i0 + 1] == '*' {
        parse_comment_exec(&cs, i0 + 2)
    } else {
        assert(!(i0 + 1 < cs@.len() && cs@[i0 as int] == '/' && cs@[i0 + 1] == '*'));
        Err(top_error_exec(&cs, i0, pk))
    };
    match inner {
        Ok(t) => Ok(t),
        Err(e) => {
            let mut errs: Vec<ParseError> = Vec::new();
            errs.push(e);
            assert(errs@.len() == 1 && errs@[0] == e);
            Err(errs)
        },
    }
}

} // verus!
