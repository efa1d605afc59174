//! The tokenizer: turns a raw input line into an ordered token sequence.
//!
//! At each position, after insignificant whitespace is skipped, exactly one
//! alternative can apply, decided by the leading character: a bare word
//! (letter, digit or backslash), a quoted literal (`"`), the pipe separator
//! (`|`) or a variable reference (`$`).  On the first unrecoverable failure
//! the tokens already produced are returned together with a distinct error,
//! never silently dropped.

use vstd::prelude::*;

use crate::token::{is_space_char, is_var_char, is_word_char, ScanError, Token, TokenV, tokens_view};

verus! {

/// Index of the first character at or after `i` that is not whitespace.
pub open spec fn skip_ws(s: Seq<char>, i: int) -> int
    decreases s.len() - i,
{
    if 0 <= i < s.len() && is_space_char(s[i]) {
        skip_ws(s, i + 1)
    } else {
        i
    }
}

/// Result of scanning a bare word at position `i`: the resolved text and the
/// position after the word, or `None` on a malformed escape sequence.
/// Escape handling: `\ ` is one space, `\t` is two spaces, `\\` is one
/// backslash; nothing else may follow a backslash.
pub open spec fn scan_word(s: Seq<char>, i: int) -> Option<(Seq<char>, int)>
    decreases s.len() - i,
{
    if !(0 <= i <= s.len()) {
        None
    } else if i == s.len() || (!is_word_char(s[i]) && s[i] != '\\') {
        Some((Seq::empty(), i))
    } else if is_word_char(s[i]) {
        match scan_word(s, i + 1) {
            Some((t, k)) => Some((seq![s[i]] + t, k)),
            None => None,
        }
    } else if i + 1 >= s.len() {
        None
    } else if s[i + 1] == ' ' {
        match scan_word(s, i + 2) {
            Some((t, k)) => Some((seq![' '] + t, k)),
            None => None,
        }
    } else if s[i + 1] == 't' {
        match scan_word(s, i + 2) {
            Some((t, k)) => Some((seq![' ', ' '] + t, k)),
            None => None,
        }
    } else if s[i + 1] == '\\' {
        match scan_word(s, i + 2) {
            Some((t, k)) => Some((seq!['\\'] + t, k)),
            None => None,
        }
    } else {
        None
    }
}

/// Index of the first `"` at or after `i`, if any.
pub open spec fn close_quote(s: Seq<char>, i: int) -> Option<int>
    decreases s.len() - i,
{
    if !(0 <= i < s.len()) {
        None
    } else if s[i] == '"' {
        Some(i)
    } else {
        close_quote(s, i + 1)
    }
}

/// Result of scanning a quoted literal whose opening quote stands at `i`:
/// the verbatim text between the quotes and the position after the closing
/// quote, or `None` when the literal is unterminated.
pub open spec fn scan_literal(s: Seq<char>, i: int) -> Option<(Seq<char>, int)> {
    match close_quote(s, i + 1) {
        Some(j) => Some((s.subrange(i + 1, j), j + 1)),
        None => None,
    }
}

/// Index of the first character at or after `i` that cannot stand in a
/// variable name.
pub open spec fn var_end(s: Seq<char>, i: int) -> int
    decreases s.len() - i,
{
    if 0 <= i < s.len() && is_var_char(s[i]) {
        var_end(s, i + 1)
    } else {
        i
    }
}

/// Result of scanning a variable reference whose `$` stands at `i`: the
/// name and the position after it, or `None` when no valid name character
/// follows the `$`.
pub open spec fn scan_var(s: Seq<char>, i: int) -> Option<(Seq<char>, int)> {
    let e = var_end(s, i + 1);
    if e == i + 1 {
        None
    } else {
        Some((s.subrange(i + 1, e), e))
    }
}

/// The tokens produced from position `i` on, with the error, if any, that
/// stopped the scan.  The already-produced prefix is kept beside the error.
pub open spec fn scan_from(s: Seq<char>, i: int) -> (Seq<TokenV>, Option<ScanError>)
    decreases s.len() - i,
    via scan_from_dec
{
    if !(0 <= i <= s.len()) {
        (seq![], None)
    } else {
        let j = skip_ws(s, i);
        if j >= s.len() {
            (seq![], None)
        } else if is_word_char(s[j]) || s[j] == '\\' {
            match scan_word(s, j) {
                Some((t, k)) => {
                    let r = scan_from(s, k);
                    (seq![TokenV::Word(t)] + r.0, r.1)
                },
                None => (seq![], Some(ScanError::MalformedEscape)),
            }
        } else if s[j] == '"' {
            match scan_literal(s, j) {
                Some((t, k)) => {
                    let r = scan_from(s, k);
                    (seq![TokenV::Literal(t)] + r.0, r.1)
                },
                None => (seq![], Some(ScanError::UnterminatedLiteral)),
            }
        } else if s[j] == '|' {
            let r = scan_from(s, j + 1);
            (seq![TokenV::Pipe] + r.0, r.1)
        } else if s[j] == '$' {
            match scan_var(s, j) {
                Some((n, k)) => {
                    let r = scan_from(s, k);
                    (seq![TokenV::Var(n)] + r.0, r.1)
                },
                None => (seq![], Some(ScanError::InvalidVariable)),
            }
        } else {
            (seq![], Some(ScanError::UnexpectedCharacter))
        }
    }
}

#[via_fn]
proof fn scan_from_dec(s: Seq<char>, i: int) {
    if 0 <= i <= s.len() {
        lemma_skip_ws(s, i);
        let j = skip_ws(s, i);
        if j < s.len() {
            lemma_scan_word(s, j);
            lemma_close_quote(s, j + 1);
            lemma_var_end(s, j + 1);
        }
    }
}

/// `skip_ws` stays within bounds, skips only whitespace, and stops at the
/// first character that is none.
pub proof fn lemma_skip_ws(s: Seq<char>, i: int)
    requires
        0 <= i <= s.len(),
    ensures
        i <= skip_ws(s, i) <= s.len(),
        forall|m: int| i <= m < skip_ws(s, i) ==> is_space_char(#[trigger] s[m]),
        skip_ws(s, i) < s.len() ==> !is_space_char(s[skip_ws(s, i)]),
    decreases s.len() - i,
{
    if i < s.len() && is_space_char(s[i]) {
        lemma_skip_ws(s, i + 1);
    }
}

/// Bounds of `scan_word`: a successful scan lands within the input, and a
/// scan that starts at a word character or backslash consumes at least one
/// character and yields nonempty text.
pub proof fn lemma_scan_word(s: Seq<char>, i: int)
    requires
        0 <= i <= s.len(),
    ensures
        scan_word(s, i) matches Some(r) ==> i <= r.1 <= s.len(),
        i < s.len() && (is_word_char(s[i]) || s[i] == '\\') ==> (scan_word(s, i) matches Some(r)
            ==> r.1 > i && r.0.len() > 0),
    decreases s.len() - i,
{
    if i < s.len() && is_word_char(s[i]) {
        lemma_scan_word(s, i + 1);
    } else if i + 1 < s.len() && s[i] == '\\' {
        lemma_scan_word(s, i + 2);
    }
}

/// `close_quote` finds the first quote at or after `i`, or reports that
/// none follows.
pub proof fn lemma_close_quote(s: Seq<char>, i: int)
    requires
        0 <= i <= s.len(),
    ensures
        close_quote(s, i) matches Some(j) ==> i <= j < s.len() && s[j] == '"' && forall|m: int|
            i <= m < j ==> #[trigger] s[m] != '"',
        close_quote(s, i) is None ==> forall|m: int| i <= m < s.len() ==> #[trigger] s[m] != '"',
    decreases s.len() - i,
{
    if 0 <= i < s.len() && s[i] != '"' {
        lemma_close_quote(s, i + 1);
    }
}

/// `var_end` stays within bounds, passes only name characters, and stops at
/// the first character that is none.
pub proof fn lemma_var_end(s: Seq<char>, i: int)
    requires
        0 <= i <= s.len(),
    ensures
        i <= var_end(s, i) <= s.len(),
        forall|m: int| i <= m < var_end(s, i) ==> is_var_char(#[trigger] s[m]),
        var_end(s, i) < s.len() ==> !is_var_char(s[var_end(s, i)]),
    decreases s.len() - i,
{
    if i < s.len() && is_var_char(s[i]) {
        lemma_var_end(s, i + 1);
    }
}

/// Classifies `c` as a bare-word character.
pub fn word_char(c: char) -> (b: bool)
    ensures
        b == is_word_char(c),
{
    ('0' <= c && c <= '9') || ('a' <= c && c <= 'z') || ('A' <= c && c <= 'Z')
}

/// Classifies `c` as a variable-name character.
pub fn var_char(c: char) -> (b: bool)
    ensures
        b == is_var_char(c),
{
    word_char(c) || c == '_'
}

/// Classifies `c` as insignificant whitespace.
pub fn space_char(c: char) -> (b: bool)
    ensures
        b == is_space_char(c),
{
    c == ' ' || c == '\t' || c == '\r' || c == '\n'
}

/// Relies on `String: FromIterator<char>`: collecting a vector of
/// characters yields the string of exactly those characters, in order.
#[verifier::external_body]
pub(crate) fn chars_to_string(v: Vec<char>) -> (s: String)
    ensures
        s@ == v@,
{
    v.into_iter().collect()
}

/// The characters of `s`, in order.
pub fn str_to_chars(s: &str) -> (v: Vec<char>)
    ensures
        v@ == s@,
{
    let n = s.unicode_len();
    let mut v: Vec<char> = Vec::new();
    let mut i: usize = 0;
    while i < n
        invariant
            n == s@.len(),
            i <= n,
            v@ == s@.subrange(0, i as int),
        decreases n - i,
    {
        v.push(s.get_char(i));
        i = i + 1;
        proof {
            assert(v@ =~= s@.subrange(0, i as int));
        }
    }
    proof {
        assert(s@.subrange(0, n as int) =~= s@);
    }
    v
}

/// First non-whitespace position at or after `i`.
fn skip_ws_exec(cs: &Vec<char>, i: usize) -> (j: usize)
    requires
        i <= cs@.len(),
    ensures
        j as int == skip_ws(cs@, i as int),
        i <= j <= cs@.len(),
{
    let mut j = i;
    loop
        invariant
            i <= j <= cs@.len(),
            skip_ws(cs@, i as int) == skip_ws(cs@, j as int),
        ensures
            i <= j <= cs@.len(),
            skip_ws(cs@, i as int) == j as int,
        decreases cs@.len() - j,
    {
        if j >= cs.len() {
            break;
        }
        if !space_char(cs[j]) {
            break;
        }
        j = j + 1;
    }
    j
}

/// Prepends already-scanned text to the result of scanning the rest of a
/// word.
pub open spec fn word_cont(pre: Seq<char>, r: Option<(Seq<char>, int)>) -> Option<
    (Seq<char>, int),
> {
    match r {
        Some(p) => Some((pre + p.0, p.1)),
        None => None,
    }
}

proof fn lemma_word_cont_assoc(a: Seq<char>, b: Seq<char>, r: Option<(Seq<char>, int)>)
    ensures
        word_cont(a, word_cont(b, r)) == word_cont(a + b, r),
{
    match r {
        Some(p) => {
            assert(a + (b + p.0) =~= (a + b) + p.0);
        },
        None => {},
    }
}

/// Scans a bare word at `i`, resolving escape sequences.
fn scan_word_exec(cs: &Vec<char>, i: usize) -> (r: Option<(Vec<char>, usize)>)
    requires
        i <= cs@.len(),
    ensures
        r matches Some(p) ==> scan_word(cs@, i as int) == Some((p.0@, p.1 as int)) && i <= p.1
            <= cs@.len(),
        r is None ==> scan_word(cs@, i as int) is None,
{
    let mut acc: Vec<char> = Vec::new();
    let mut p = i;
    loop
        invariant
            i <= p <= cs@.len(),
            scan_word(cs@, i as int) == word_cont(acc@, scan_word(cs@, p as int)),
        decreases cs@.len() - p,
    {
        if p >= cs.len() {
            proof {
                assert(acc@ + Seq::<char>::empty() =~= acc@);
            }
            return Some((acc, p));
        }
        let c = cs[p];
        if word_char(c) {
            proof {
                assert(scan_word(cs@, p as int) == word_cont(seq![c], scan_word(cs@, p + 1)));
                lemma_word_cont_assoc(acc@, seq![c], scan_word(cs@, p + 1));
                assert(acc@ + seq![c] =~= acc@.push(c));
            }
            acc.push(c);
            p = p + 1;
        } else if c == '\\' {
            if p + 1 >= cs.len() {
                return None;
            }
            let d = cs[p + 1];
            if d == ' ' {
                proof {
                    assert(scan_word(cs@, p as int) == word_cont(
                        seq![' '],
                        scan_word(cs@, p + 2),
                    ));
                    lemma_word_cont_assoc(acc@, seq![' '], scan_word(cs@, p + 2));
                    assert(acc@ + seq![' '] =~= acc@.push(' '));
                }
                acc.push(' ');
                p = p + 2;
            } else if d == 't' {
                proof {
                    assert(scan_word(cs@, p as int) == word_cont(
                        seq![' ', ' '],
                        scan_word(cs@, p + 2),
                    ));
                    lemma_word_cont_assoc(acc@, seq![' ', ' '], scan_word(cs@, p + 2));
                    assert(acc@ + seq![' ', ' '] =~= acc@.push(' ').push(' '));
                }
                acc.push(' ');
                acc.push(' ');
                p = p + 2;
            } else if d == '\\' {
                proof {
                    assert(scan_word(cs@, p as int) == word_cont(
                        seq!['\\'],
                        scan_word(cs@, p + 2),
                    ));
                    lemma_word_cont_assoc(acc@, seq!['\\'], scan_word(cs@, p + 2));
                    assert(acc@ + seq!['\\'] =~= acc@.push('\\'));
                }
                acc.push('\\');
                p = p + 2;
            } else {
                return None;
            }
        } else {
            proof {
                assert(acc@ + Seq::<char>::empty() =~= acc@);
            }
            return Some((acc, p));
        }
    }
}

/// Scans a quoted literal whose opening quote stands at `i`.
fn scan_literal_exec(cs: &Vec<char>, i: usize) -> (r: Option<(Vec<char>, usize)>)
    requires
        i < cs@.len(),
        cs@[i as int] == '"',
    ensures
        r matches Some(p) ==> scan_literal(cs@, i as int) == Some((p.0@, p.1 as int)) && i < p.1
            <= cs@.len(),
        r is None ==> scan_literal(cs@, i as int) is None,
{
    let n = cs.len();
    let mut q = i + 1;
    loop
        invariant
            i + 1 <= q <= cs@.len(),
            close_quote(cs@, i + 1) == close_quote(cs@, q as int),
        ensures
            i + 1 <= q <= cs@.len(),
            q == cs@.len() ==> close_quote(cs@, i + 1) is None,
            q < cs@.len() ==> cs@[q as int] == '"' && close_quote(cs@, i + 1) == Some(q as int),
        decreases cs@.len() - q,
    {
        if q >= cs.len() {
            break;
        }
        if cs[q] == '"' {
            break;
        }
        q = q + 1;
    }
    if q >= cs.len() {
        return None;
    }
    let mut text: Vec<char> = Vec::new();
    let mut m = i + 1;
    while m < q
        invariant
            i + 1 <= m <= q,
            q < cs@.len(),
            text@ == cs@.subrange(i + 1, m as int),
        decreases q - m,
    {
        text.push(cs[m]);
        m = m + 1;
        proof {
            assert(text@ =~= cs@.subrange(i + 1, m as int));
        }
    }
    Some((text, q + 1))
}

/// Scans a variable reference whose `$` stands at `i`.
fn scan_var_exec(cs: &Vec<char>, i: usize) -> (r: Option<(Vec<char>, usize)>)
    requires
        i < cs@.len(),
        cs@[i as int] == '$',
    ensures
        r matches Some(p) ==> scan_var(cs@, i as int) == Some((p.0@, p.1 as int)) && i + 1 < p.1
            <= cs@.len(),
        r is None ==> scan_var(cs@, i as int) is None,
{
    let n = cs.len();
    let mut e = i + 1;
    loop
        invariant
            i + 1 <= e <= cs@.len(),
            var_end(cs@, i + 1) == var_end(cs@, e as int),
        ensures
            i + 1 <= e <= cs@.len(),
            var_end(cs@, i + 1) == e as int,
        decreases cs@.len() - e,
    {
        if e >= cs.len() {
            break;
        }
        if !var_char(cs[e]) {
            break;
        }
        e = e + 1;
    }
    if e == i + 1 {
        return None;
    }
    let mut name: Vec<char> = Vec::new();
    let mut m = i + 1;
    while m < e
        invariant
            i + 1 <= m <= e,
            e <= cs@.len(),
            name@ == cs@.subrange(i + 1, m as int),
        decreases e - m,
    {
        name.push(cs[m]);
        m = m + 1;
        proof {
            assert(name@ =~= cs@.subrange(i + 1, m as int));
        }
    }
    Some((name, e))
}

proof fn lemma_push_assoc(pre: Seq<TokenV>, tv: TokenV, rest: Seq<TokenV>)
    ensures
        pre + (seq![tv] + rest) == (pre + seq![tv]) + rest,
{
    assert(pre + (seq![tv] + rest) =~= (pre + seq![tv]) + rest);
}

/// Scans a whole character sequence into tokens, returning the tokens
/// produced before any failure together with the failure, if one came.
pub fn scan_chars(cs: &Vec<char>) -> (r: (Vec<Token>, Option<ScanError>))
    ensures
        tokens_view(r.0@) == scan_from(cs@, 0).0,
        r.1 == scan_from(cs@, 0).1,
{
    let mut toks: Vec<Token> = Vec::new();
    let mut i: usize = 0;
    loop
        invariant
            i <= cs@.len(),
            scan_from(cs@, 0).0 == tokens_view(toks@) + scan_from(cs@, i as int).0,
            scan_from(cs@, 0).1 == scan_from(cs@, i as int).1,
        decreases cs@.len() - i,
    {
        let j = skip_ws_exec(cs, i);
        if j >= cs.len() {
            proof {
                assert(tokens_view(toks@) + Seq::<TokenV>::empty() =~= tokens_view(toks@));
            }
            return (toks, None);
        }
        let c = cs[j];
        if word_char(c) || c == '\\' {
            match scan_word_exec(cs, j) {
                Some(tk) => {
                    let (t, k) = tk;
                    let st = chars_to_string(t);
                    proof {
                        lemma_scan_word(cs@, j as int);
                        crate::token::lemma_tokens_view_push(toks@, Token::Word(st));
                        lemma_push_assoc(
                            tokens_view(toks@),
                            TokenV::Word(st@),
                            scan_from(cs@, k as int).0,
                        );
                    }
                    toks.push(Token::Word(st));
                    i = k;
                },
                None => {
                    proof {
                        assert(tokens_view(toks@) + Seq::<TokenV>::empty() =~= tokens_view(
                            toks@,
                        ));
                    }
                    return (toks, Some(ScanError::MalformedEscape));
                },
            }
        } else if c == '"' {
            match scan_literal_exec(cs, j) {
                Some(tk) => {
                    let (t, k) = tk;
                    let st = chars_to_string(t);
                    proof {
                        crate::token::lemma_tokens_view_push(toks@, Token::Literal(st));
                        lemma_push_assoc(
                            tokens_view(toks@),
                            TokenV::Literal(st@),
                            scan_from(cs@, k as int).0,
                        );
                    }
                    toks.push(Token::Literal(st));
                    i = k;
                },
                None => {
                    proof {
                        assert(tokens_view(toks@) + Seq::<TokenV>::empty() =~= tokens_view(
                            toks@,
                        ));
                    }
                    return (toks, Some(ScanError::UnterminatedLiteral));
                },
            }
        } else if c == '|' {
            proof {
                crate::token::lemma_tokens_view_push(toks@, Token::Pipe);
                lemma_push_assoc(tokens_view(toks@), TokenV::Pipe, scan_from(cs@, j + 1).0);
            }
            toks.push(Token::Pipe);
            i = j + 1;
        } else if c == '$' {
            match scan_var_exec(cs, j) {
                Some(tk) => {
                    let (t, k) = tk;
                    let st = chars_to_string(t);
                    proof {
                        crate::token::lemma_tokens_view_push(toks@, Token::Var(st));
                        lemma_push_assoc(
                            tokens_view(toks@),
                            TokenV::Var(st@),
                            scan_from(cs@, k as int).0,
                        );
                    }
                    toks.push(Token::Var(st));
                    i = k;
                },
                None => {
                    proof {
                        assert(tokens_view(toks@) + Seq::<TokenV>::empty() =~= tokens_view(
                            toks@,
                        ));
                    }
                    return (toks, Some(ScanError::InvalidVariable));
                },
            }
        } else {
            proof {
                assert(tokens_view(toks@) + Seq::<TokenV>::empty() =~= tokens_view(toks@));
            }
            return (toks, Some(ScanError::UnexpectedCharacter));
        }
    }
}

/// Scans a raw input line into its ordered token sequence; on failure the
/// tokens scanned before the failure point come back beside the error.
pub fn parse(line: &str) -> (r: (Vec<Token>, Option<ScanError>))
    ensures
        tokens_view(r.0@) == scan_from(line@, 0).0,
        r.1 == scan_from(line@, 0).1,
{
    let cs = str_to_chars(line);
    scan_chars(&cs)
}

} // verus!
