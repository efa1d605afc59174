//! Reconstruction of an input line from literal and word tokens — literals
//! re-quoted, words re-escaped, one space after each token — and the proof
//! that tokenizing the reconstruction yields the same token sequence again.

use vstd::prelude::*;

use crate::scanner::{
    close_quote, lemma_close_quote, lemma_skip_ws, lemma_var_end, scan_from, scan_literal,
    scan_var, scan_word, skip_ws, var_end,
};
use crate::token::{is_space_char, is_var_char, is_word_char, tokens_view, ScanError, Token, TokenV};

verus! {

/// A word text the scanner itself can produce: nonempty, made of word
/// characters, spaces and backslashes.
pub open spec fn wf_word_text(t: Seq<char>) -> bool {
    t.len() > 0 && (forall|i: int|
        0 <= i < t.len() ==> is_word_char(#[trigger] t[i]) || t[i] == ' ' || t[i] == '\\')
}

/// A literal text the scanner itself can produce: free of double quotes.
pub open spec fn wf_literal_text(t: Seq<char>) -> bool {
    forall|i: int| 0 <= i < t.len() ==> #[trigger] t[i] != '"'
}

/// A token the reconstruction covers: a word or a literal as the scanner
/// could have produced it.
pub open spec fn wf_flat_token(t: TokenV) -> bool {
    match t {
        TokenV::Word(x) => wf_word_text(x),
        TokenV::Literal(x) => wf_literal_text(x),
        _ => false,
    }
}

/// The re-escaped form of one word character.
pub open spec fn encode_char(c: char) -> Seq<char> {
    if c == ' ' {
        seq!['\\', ' ']
    } else if c == '\\' {
        seq!['\\', '\\']
    } else {
        seq![c]
    }
}

/// The re-escaped form of a word text.
pub open spec fn encode_word(t: Seq<char>) -> Seq<char>
    decreases t.len(),
{
    if t.len() == 0 {
        Seq::empty()
    } else {
        encode_char(t[0]) + encode_word(t.drop_first())
    }
}

/// The re-quoted or re-escaped form of one token.
pub open spec fn encode_token(t: TokenV) -> Seq<char> {
    match t {
        TokenV::Word(x) => encode_word(x),
        TokenV::Literal(x) => seq!['"'] + x + seq!['"'],
        _ => Seq::empty(),
    }
}

/// The reconstructed line: each token encoded, one space after each.
pub open spec fn reconstruct_spec(ts: Seq<TokenV>) -> Seq<char>
    decreases ts.len(),
{
    if ts.len() == 0 {
        Seq::empty()
    } else {
        encode_token(ts[0]) + seq![' '] + reconstruct_spec(ts.drop_first())
    }
}

proof fn lemma_encode_word_first(t: Seq<char>)
    requires
        t.len() > 0,
        is_word_char(t[0]) || t[0] == ' ' || t[0] == '\\',
    ensures
        encode_word(t).len() > 0,
        is_word_char(encode_word(t)[0]) || encode_word(t)[0] == '\\',
        !is_space_char(encode_word(t)[0]),
{
    assert(encode_word(t) == encode_char(t[0]) + encode_word(t.drop_first()));
    assert(encode_word(t)[0] == encode_char(t[0])[0]);
}

proof fn lemma_scan_word_encoded(s: Seq<char>, i: int, t: Seq<char>)
    requires
        0 <= i,
        i + encode_word(t).len() <= s.len(),
        forall|m: int|
            0 <= m < t.len() ==> is_word_char(#[trigger] t[m]) || t[m] == ' ' || t[m] == '\\',
        s.subrange(i, i + encode_word(t).len()) == encode_word(t),
        i + encode_word(t).len() == s.len() || (!is_word_char(s[i + encode_word(t).len()])
            && s[i + encode_word(t).len()] != '\\'),
    ensures
        scan_word(s, i) == Some((t, i + encode_word(t).len())),
    decreases t.len(),
{
    let enc = encode_word(t);
    let e = i + enc.len();
    if t.len() == 0 {
        assert(t =~= Seq::<char>::empty());
    } else {
        let c = t[0];
        let t2 = t.drop_first();
        let enc2 = encode_word(t2);
        assert(enc == encode_char(c) + enc2);
        assert(s[i] == enc[0]) by {
            assert(s.subrange(i, e)[0] == s[i]);
        }
        if is_word_char(c) {
            assert(enc[0] == c);
            assert(s.subrange(i + 1, i + 1 + enc2.len()) =~= enc2) by {
                assert forall|m: int| 0 <= m < enc2.len() implies s.subrange(
                    i + 1,
                    i + 1 + enc2.len(),
                )[m] == enc2[m] by {
                    assert(s.subrange(i, e)[m + 1] == s[i + 1 + m]);
                    assert(enc[m + 1] == enc2[m]);
                }
            }
            lemma_scan_word_encoded(s, i + 1, t2);
            assert(seq![c] + t2 =~= t);
        } else {
            assert(enc[0] == '\\');
            assert(s[i] == '\\');
            assert(enc.len() >= 2);
            let d = if c == ' ' {
                ' '
            } else {
                '\\'
            };
            assert(enc[1] == d) by {
                assert(encode_char(c).len() == 2);
            }
            assert(s[i + 1] == enc[1]) by {
                assert(s.subrange(i, e)[1] == s[i + 1]);
            }
            assert(s.subrange(i + 2, i + 2 + enc2.len()) =~= enc2) by {
                assert forall|m: int| 0 <= m < enc2.len() implies s.subrange(
                    i + 2,
                    i + 2 + enc2.len(),
                )[m] == enc2[m] by {
                    assert(s.subrange(i, e)[m + 2] == s[i + 2 + m]);
                    assert(enc[m + 2] == enc2[m]);
                }
            }
            lemma_scan_word_encoded(s, i + 2, t2);
            if c == ' ' {
                assert(seq![' '] + t2 =~= t);
            } else {
                assert(seq!['\\'] + t2 =~= t);
            }
        }
    }
}

proof fn lemma_close_quote_at(s: Seq<char>, i: int, j: int)
    requires
        0 <= i <= j < s.len(),
        s[j] == '"',
        forall|m: int| i <= m < j ==> #[trigger] s[m] != '"',
    ensures
        close_quote(s, i) == Some(j),
    decreases j - i,
{
    if i < j {
        lemma_close_quote_at(s, i + 1, j);
    }
}

proof fn lemma_scan_literal_encoded(s: Seq<char>, i: int, t: Seq<char>)
    requires
        0 <= i,
        wf_literal_text(t),
        i + t.len() + 2 <= s.len(),
        s.subrange(i, i + t.len() + 2) == seq!['"'] + t + seq!['"'],
    ensures
        scan_literal(s, i) == Some((t, i + t.len() + 2)),
{
    let j = i + t.len() + 1;
    assert(s[j] == '"') by {
        assert(s.subrange(i, i + t.len() + 2)[t.len() as int + 1] == s[j]);
    }
    assert forall|m: int| i + 1 <= m < j implies #[trigger] s[m] != '"' by {
        assert(s.subrange(i, i + t.len() + 2)[m - i] == s[m]);
        assert((seq!['"'] + t + seq!['"'])[m - i] == t[m - i - 1]);
    }
    lemma_close_quote_at(s, i + 1, j);
    assert(s.subrange(i + 1, j) =~= t) by {
        assert forall|m: int| 0 <= m < t.len() implies s.subrange(i + 1, j)[m] == t[m] by {
            assert(s.subrange(i, i + t.len() + 2)[m + 1] == s[i + 1 + m]);
            assert((seq!['"'] + t + seq!['"'])[m + 1] == t[m]);
        }
    }
}

proof fn lemma_scan_from_space(s: Seq<char>, e: int)
    requires
        0 <= e < s.len(),
        s[e] == ' ',
    ensures
        scan_from(s, e) == scan_from(s, e + 1),
{
    assert(skip_ws(s, e) == skip_ws(s, e + 1));
}

/// Tokenizing the reconstruction of a literal/word token sequence yields
/// exactly that sequence again, with no error: re-quoting and re-escaping
/// lose nothing.
pub proof fn lemma_rescan_from(s: Seq<char>, i: int, ts: Seq<TokenV>)
    requires
        0 <= i <= s.len(),
        forall|m: int| 0 <= m < ts.len() ==> wf_flat_token(#[trigger] ts[m]),
        s.len() - i == reconstruct_spec(ts).len(),
        s.subrange(i, s.len() as int) == reconstruct_spec(ts),
    ensures
        scan_from(s, i) == (ts, Option::<ScanError>::None),
    decreases ts.len(),
{
    let r = reconstruct_spec(ts);
    if ts.len() == 0 {
        assert(i == s.len());
        assert(ts =~= Seq::<TokenV>::empty());
    } else {
        let t0 = ts[0];
        let rest = ts.drop_first();
        assert(wf_flat_token(t0));
        let enc = encode_token(t0);
        assert(r == enc + seq![' '] + reconstruct_spec(rest));
        let l = enc.len() as int;
        let e = i + l;
        assert(forall|m: int| 0 <= m < r.len() ==> s[i + m] == #[trigger] r[m]) by {
            assert forall|m: int| 0 <= m < r.len() implies s[i + m] == #[trigger] r[m] by {
                assert(s.subrange(i, s.len() as int)[m] == s[i + m]);
            }
        }
        assert(s[e] == ' ') by {
            assert(r[l] == ' ');
        }
        match t0 {
            TokenV::Word(x) => {
                assert(s.subrange(i, e) =~= enc) by {
                    assert forall|m: int| 0 <= m < l implies s.subrange(i, e)[m] == enc[m] by {
                        assert(r[m] == enc[m]);
                        assert(s[i + m] == r[m]);
                    }
                }
                lemma_scan_word_encoded(s, i, x);
                lemma_encode_word_first(x);
                assert(s[i] == enc[0]);
                assert(skip_ws(s, i) == i);
                assert(scan_from(s, i).0 == seq![TokenV::Word(x)] + scan_from(s, e).0);
                assert(scan_from(s, i).1 == scan_from(s, e).1);
            },
            TokenV::Literal(x) => {
                assert(l == x.len() + 2);
                assert(s.subrange(i, e) =~= enc) by {
                    assert forall|m: int| 0 <= m < l implies s.subrange(i, e)[m] == enc[m] by {
                        assert(r[m] == enc[m]);
                        assert(s[i + m] == r[m]);
                    }
                }
                lemma_scan_literal_encoded(s, i, x);
                assert(s[i] == '"') by {
                    assert(enc[0] == '"');
                    assert(r[0] == enc[0]);
                }
                assert(!is_word_char('"') && '"' != '\\' && !is_space_char('"'));
                assert(skip_ws(s, i) == i);
                assert(scan_from(s, i).0 == seq![TokenV::Literal(x)] + scan_from(s, e).0);
                assert(scan_from(s, i).1 == scan_from(s, e).1);
            },
            _ => {
                assert(false);
            },
        }
        lemma_scan_from_space(s, e);
        assert(s.subrange(e + 1, s.len() as int) =~= reconstruct_spec(rest)) by {
            assert forall|m: int| 0 <= m < reconstruct_spec(rest).len() implies s.subrange(
                e + 1,
                s.len() as int,
            )[m] == reconstruct_spec(rest)[m] by {
                assert(r[l + 1 + m] == reconstruct_spec(rest)[m]);
                assert(s[i + (l + 1 + m)] == r[l + 1 + m]);
            }
        }
        lemma_rescan_from(s, e + 1, rest);
        assert(seq![ts[0]] + ts.drop_first() =~= ts);
        assert(scan_from(s, i).0 =~= ts);
    }
}

/// The round trip itself: scanning the reconstructed line gives back the
/// token sequence it was built from, and no error.
pub proof fn lemma_rescan_reconstruct(ts: Seq<TokenV>)
    requires
        forall|m: int| 0 <= m < ts.len() ==> wf_flat_token(#[trigger] ts[m]),
    ensures
        scan_from(reconstruct_spec(ts), 0) == (ts, Option::<ScanError>::None),
{
    let s = reconstruct_spec(ts);
    assert(s.subrange(0, s.len() as int) =~= s);
    lemma_rescan_from(s, 0, ts);
}

/// What holds of every token the scanner produces: words and literals are
/// reconstructible, variable names are nonempty and valid, and no
/// substitution token is ever produced by the grammar.
pub open spec fn scanned_token_wf(t: TokenV) -> bool {
    match t {
        TokenV::Word(x) => wf_word_text(x),
        TokenV::Literal(x) => wf_literal_text(x),
        TokenV::Var(n) => n.len() > 0 && (forall|i: int|
            0 <= i < n.len() ==> is_var_char(#[trigger] n[i])),
        TokenV::Substitution(_, _) => false,
        TokenV::Pipe => true,
    }
}

proof fn lemma_scan_word_wf(s: Seq<char>, i: int)
    requires
        0 <= i <= s.len(),
    ensures
        scan_word(s, i) matches Some(p) ==> (forall|m: int|
            0 <= m < p.0.len() ==> is_word_char(#[trigger] p.0[m]) || p.0[m] == ' ' || p.0[m]
                == '\\'),
    decreases s.len() - i,
{
    if i < s.len() && is_word_char(s[i]) {
        lemma_scan_word_wf(s, i + 1);
    } else if i + 1 < s.len() && s[i] == '\\' {
        lemma_scan_word_wf(s, i + 2);
    }
}

proof fn lemma_scan_literal_wf(s: Seq<char>, i: int)
    requires
        0 <= i,
    ensures
        scan_literal(s, i) matches Some(p) ==> wf_literal_text(p.0),
{
    if i + 1 <= s.len() {
        lemma_close_quote(s, i + 1);
    }
}

proof fn lemma_scan_var_wf(s: Seq<char>, i: int)
    requires
        0 <= i < s.len(),
    ensures
        scan_var(s, i) matches Some(p) ==> p.0.len() > 0 && (forall|m: int|
            0 <= m < p.0.len() ==> is_var_char(#[trigger] p.0[m])),
{
    lemma_var_end(s, i + 1);
}

proof fn lemma_wf_cons(t: TokenV, rest: Seq<TokenV>)
    requires
        scanned_token_wf(t),
        forall|m: int| 0 <= m < rest.len() ==> scanned_token_wf(#[trigger] rest[m]),
    ensures
        forall|m: int|
            0 <= m < (seq![t] + rest).len() ==> scanned_token_wf(#[trigger] (seq![t] + rest)[m]),
{
    assert forall|m: int|
        0 <= m < (seq![t] + rest).len() implies scanned_token_wf(
        #[trigger] (seq![t] + rest)[m],
    ) by {
        if m == 0 {
            assert((seq![t] + rest)[0] == t);
        } else {
            assert((seq![t] + rest)[m] == rest[m - 1]);
        }
    }
}

/// Everything the tokenizer produces is well formed: each word and literal
/// token can be re-escaped or re-quoted and scanned again, each variable
/// name is a nonempty run of name characters, and no substitution token
/// ever comes out of the grammar.
pub proof fn lemma_scanned_tokens_wf(s: Seq<char>, i: int)
    requires
        0 <= i <= s.len(),
    ensures
        forall|m: int|
            0 <= m < scan_from(s, i).0.len() ==> scanned_token_wf(#[trigger] scan_from(s, i).0[m]),
    decreases s.len() - i,
{
    lemma_skip_ws(s, i);
    let j = skip_ws(s, i);
    if j < s.len() {
        if is_word_char(s[j]) || s[j] == '\\' {
            crate::scanner::lemma_scan_word(s, j);
            lemma_scan_word_wf(s, j);
            match scan_word(s, j) {
                Some(p) => {
                    lemma_scanned_tokens_wf(s, p.1);
                    lemma_wf_cons(TokenV::Word(p.0), scan_from(s, p.1).0);
                },
                None => {},
            }
        } else if s[j] == '"' {
            lemma_close_quote(s, j + 1);
            lemma_scan_literal_wf(s, j);
            match scan_literal(s, j) {
                Some(p) => {
                    lemma_scanned_tokens_wf(s, p.1);
                    lemma_wf_cons(TokenV::Literal(p.0), scan_from(s, p.1).0);
                },
                None => {},
            }
        } else if s[j] == '|' {
            lemma_scanned_tokens_wf(s, j + 1);
            lemma_wf_cons(TokenV::Pipe, scan_from(s, j + 1).0);
        } else if s[j] == '$' {
            lemma_var_end(s, j + 1);
            lemma_scan_var_wf(s, j);
            match scan_var(s, j) {
                Some(p) => {
                    lemma_scanned_tokens_wf(s, p.1);
                    lemma_wf_cons(TokenV::Var(p.0), scan_from(s, p.1).0);
                },
                None => {},
            }
        }
    }
}

proof fn lemma_encode_word_take(t: Seq<char>, m: int)
    requires
        0 <= m < t.len(),
    ensures
        encode_word(t.take(m + 1)) == encode_word(t.take(m)) + encode_char(t[m]),
    decreases m,
{
    if m == 0 {
        assert(t.take(1)[0] == t[0]);
        assert(t.take(1).drop_first() =~= Seq::<char>::empty());
        assert(t.take(0) =~= Seq::<char>::empty());
        assert(encode_word(Seq::<char>::empty()) == Seq::<char>::empty());
        assert(encode_word(t.take(1)) =~= encode_word(t.take(0)) + encode_char(t[0]));
    } else {
        lemma_encode_word_take(t.drop_first(), m - 1);
        assert(t.take(m + 1)[0] == t[0]);
        assert(t.take(m)[0] == t[0]);
        assert(t.take(m + 1).drop_first() =~= t.drop_first().take(m));
        assert(t.take(m).drop_first() =~= t.drop_first().take(m - 1));
        assert(t.drop_first()[m - 1] == t[m]);
        assert(encode_word(t.take(m + 1)) =~= encode_word(t.take(m)) + encode_char(t[m]));
    }
}

/// Rebuilds the input line a literal/word token sequence stands for:
/// literals re-quoted, words re-escaped, one space after each token.
pub fn reconstruct(tokens: &Vec<Token>) -> (r: String)
    requires
        forall|m: int| 0 <= m < tokens@.len() ==> wf_flat_token(#[trigger] tokens@[m]@),
    ensures
        r@ == reconstruct_spec(tokens_view(tokens@)),
{
    let v = reconstruct_from(tokens, 0);
    proof {
        assert(tokens_view(tokens@).skip(0) =~= tokens_view(tokens@));
    }
    crate::scanner::chars_to_string(v)
}

fn reconstruct_from(tokens: &Vec<Token>, i: usize) -> (r: Vec<char>)
    requires
        i <= tokens@.len(),
        forall|m: int| 0 <= m < tokens@.len() ==> wf_flat_token(#[trigger] tokens@[m]@),
    ensures
        r@ == reconstruct_spec(tokens_view(tokens@).skip(i as int)),
    decreases tokens@.len() - i,
{
    let ghost tv = tokens_view(tokens@);
    proof {
        crate::token::lemma_tokens_view(tokens@);
    }
    if i >= tokens.len() {
        proof {
            assert(tv.skip(i as int) =~= Seq::<TokenV>::empty());
        }
        return Vec::new();
    }
    let mut out: Vec<char> = Vec::new();
    match &tokens[i] {
        Token::Word(w) => {
            let cw = crate::scanner::str_to_chars(w.as_str());
            let mut m: usize = 0;
            proof {
                assert(cw@.take(0) =~= Seq::<char>::empty());
                assert(encode_word(Seq::<char>::empty()) == Seq::<char>::empty());
                assert(out@ =~= encode_word(cw@.take(0)));
            }
            while m < cw.len()
                invariant
                    m <= cw@.len(),
                    cw@ == w@,
                    out@ == encode_word(cw@.take(m as int)),
                decreases cw@.len() - m,
            {
                let c = cw[m];
                if c == ' ' {
                    out.push('\\');
                    out.push(' ');
                } else if c == '\\' {
                    out.push('\\');
                    out.push('\\');
                } else {
                    out.push(c);
                }
                proof {
                    lemma_encode_word_take(cw@, m as int);
                    assert(out@ =~= encode_word(cw@.take(m as int)) + encode_char(cw@[m as int]));
                }
                m = m + 1;
            }
            proof {
                assert(cw@.take(cw@.len() as int) =~= cw@);
                assert(tv[i as int] == tokens@[i as int].view());
                assert(out@ == encode_token(tv[i as int]));
            }
        },
        Token::Literal(l) => {
            out.push('"');
            let cl = crate::scanner::str_to_chars(l.as_str());
            let mut m: usize = 0;
            proof {
                assert(out@ =~= seq!['"'] + cl@.take(0));
            }
            while m < cl.len()
                invariant
                    m <= cl@.len(),
                    cl@ == l@,
                    out@ == seq!['"'] + cl@.take(m as int),
                decreases cl@.len() - m,
            {
                out.push(cl[m]);
                m = m + 1;
                proof {
                    assert(out@ =~= seq!['"'] + cl@.take(m as int));
                }
            }
            out.push('"');
            proof {
                assert(cl@.take(cl@.len() as int) =~= cl@);
                assert(tv[i as int] == tokens@[i as int].view());
                assert(out@ =~= seq!['"'] + l@ + seq!['"']);
                assert(out@ == encode_token(tv[i as int]));
            }
        },
        _ => {
            proof {
                assert(tv[i as int] == tokens@[i as int].view());
                assert(wf_flat_token(tv[i as int]));
                assert(false);
            }
        },
    }
    out.push(' ');
    let mut rest = reconstruct_from(tokens, i + 1);
    out.append(&mut rest);
    proof {
        assert(tv.skip(i as int)[0] == tv[i as int]);
        assert(tv.skip(i as int).drop_first() =~= tv.skip(i + 1));
        assert(out@ =~= reconstruct_spec(tv.skip(i as int)));
    }
    out
}

} // verus!
