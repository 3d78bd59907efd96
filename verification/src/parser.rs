//! Tokenizer: turns a line of text into a sequence of [`TokenType`] values.
//!
//! The executable functions are proved equal to the specification-level
//! tokenizer [`spec_tokenize_from`], which scans left to right in one pass:
//! maximal runs of word characters become `Word` tokens, quoted spans keep
//! their delimiters, `&&`/`||`/`|`/`;`/`(`/`)` become operator tokens, and
//! whitespace separates without producing a token.

use vstd::prelude::*;

verus! {

/// A lexical token of a command line.
#[derive(Debug, PartialEq)]
pub enum TokenType {
    Word(String),
    DoubleQuotedString(String),
    SingleQuotedString(String),
    Or,
    And,
    Parenthesis(char),
    Pipe,
    Semicolon,
}

/// The mathematical value of a token: its text as a sequence of characters.
pub enum Tok {
    Word(Seq<char>),
    DoubleQuotedString(Seq<char>),
    SingleQuotedString(Seq<char>),
    Or,
    And,
    Parenthesis(char),
    Pipe,
    Semicolon,
}

impl View for TokenType {
    type V = Tok;

    open spec fn view(&self) -> Tok {
        match self {
            TokenType::Word(s) => Tok::Word(s@),
            TokenType::DoubleQuotedString(s) => Tok::DoubleQuotedString(s@),
            TokenType::SingleQuotedString(s) => Tok::SingleQuotedString(s@),
            TokenType::Or => Tok::Or,
            TokenType::And => Tok::And,
            TokenType::Parenthesis(c) => Tok::Parenthesis(*c),
            TokenType::Pipe => Tok::Pipe,
            TokenType::Semicolon => Tok::Semicolon,
        }
    }
}

/// The views of a sequence of tokens.
pub open spec fn toks(ts: Seq<TokenType>) -> Seq<Tok> {
    ts.map_values(|t: TokenType| t@)
}

/// A failure of the tokenizer.
#[derive(Debug, PartialEq, Eq, Structural)]
pub enum ParseError {
    UnterminatedQuote,
    IncompleteAnd,
    InvalidCharacter,
}

/// The alphanumeric characters within ASCII: letters and digits.
pub open spec fn ascii_alphanumeric(c: char) -> bool {
    ('a' <= c && c <= 'z') || ('A' <= c && c <= 'Z') || ('0' <= c && c <= '9')
}

/// Whether a character beyond ASCII satisfies the Unicode property tested by
/// `char::is_alphanumeric`; left abstract.
pub uninterp spec fn nonascii_alphanumeric(c: char) -> bool;

/// The character class accepted by `char::is_alphanumeric`.
pub open spec fn char_alphanumeric(c: char) -> bool {
    if c as u32 <= 0x7f {
        ascii_alphanumeric(c)
    } else {
        nonascii_alphanumeric(c)
    }
}

/// The whitespace characters within ASCII: space and the five controls
/// from tab through carriage return.
pub open spec fn ascii_whitespace(c: char) -> bool {
    c == ' ' || c == '\t' || c == '\n' || c == '\r' || c as u32 == 0xb || c as u32 == 0xc
}

/// Whether a character beyond ASCII satisfies the Unicode property tested by
/// `char::is_whitespace`; left abstract.
pub uninterp spec fn nonascii_whitespace(c: char) -> bool;

/// The character class accepted by `char::is_whitespace`.
pub open spec fn char_whitespace(c: char) -> bool {
    if c as u32 <= 0x7f {
        ascii_whitespace(c)
    } else {
        nonascii_whitespace(c)
    }
}

/// Characters that may form a word: alphanumerics and `-`.
pub open spec fn word_char(c: char) -> bool {
    char_alphanumeric(c) || c == '-'
}

/// Relies on `char::is_alphanumeric`: within ASCII it holds exactly for the
/// letters and digits; beyond ASCII the Unicode property is left abstract.
#[verifier::external_body]
fn is_alphanumeric_char(c: char) -> (r: bool)
    ensures
        r == char_alphanumeric(c),
        c as u32 > 0x7f ==> r == nonascii_alphanumeric(c),
{
    c.is_alphanumeric()
}

/// Relies on `char::is_whitespace`: within ASCII it holds exactly for space,
/// tab, line feed, vertical tab, form feed and carriage return; beyond ASCII
/// the Unicode property is left abstract.
#[verifier::external_body]
fn is_whitespace_char(c: char) -> (r: bool)
    ensures
        r == char_whitespace(c),
        c as u32 > 0x7f ==> r == nonascii_whitespace(c),
{
    c.is_whitespace()
}

/// Whether `c` may appear in a word token.
pub fn is_word(c: char) -> (r: bool)
    ensures
        r == word_char(c),
{
    is_alphanumeric_char(c) || c == '-'
}

/// The end of the word run beginning at `i`: the first position at or after
/// `i` that holds a non-word character, or the end of the input.
pub open spec fn word_end(s: Seq<char>, i: int) -> int
    decreases s.len() - i,
{
    if i < 0 || i >= s.len() {
        i
    } else if word_char(s[i]) {
        word_end(s, i + 1)
    } else {
        i
    }
}

proof fn lemma_word_end(s: Seq<char>, i: int)
    requires
        0 <= i <= s.len(),
    ensures
        i <= word_end(s, i) <= s.len(),
        forall|j: int| i <= j < word_end(s, i) ==> word_char(s[j]),
        word_end(s, i) < s.len() ==> !word_char(s[word_end(s, i)]),
    decreases s.len() - i,
{
    if i < s.len() && word_char(s[i]) {
        lemma_word_end(s, i + 1);
    }
}

/// The position of the first `q` at or after `i`, or the end of the input if
/// there is none.
pub open spec fn close_quote(s: Seq<char>, i: int, q: char) -> int
    decreases s.len() - i,
{
    if i < 0 || i >= s.len() {
        s.len() as int
    } else if s[i] == q {
        i
    } else {
        close_quote(s, i + 1, q)
    }
}

proof fn lemma_close_quote(s: Seq<char>, i: int, q: char)
    requires
        0 <= i <= s.len(),
    ensures
        i <= close_quote(s, i, q) <= s.len(),
        close_quote(s, i, q) < s.len() ==> s[close_quote(s, i, q)] == q,
        forall|j: int| i <= j < close_quote(s, i, q) ==> s[j] != q,
    decreases s.len() - i,
{
    if i < s.len() && s[i] != q {
        lemma_close_quote(s, i + 1, q);
    }
}

/// Prefixes a sequence of tokens to a tokenizer outcome; an error swallows
/// the prefix.
pub open spec fn prepend_tokens(pre: Seq<Tok>, r: Result<Seq<Tok>, ParseError>) -> Result<
    Seq<Tok>,
    ParseError,
> {
    match r {
        Ok(rest) => Ok(pre + rest),
        Err(e) => Err(e),
    }
}

/// The tokenization of `s` from position `i` on: the token sequence it
/// denotes, or the first lexical error met while scanning left to right.
pub open spec fn spec_tokenize_from(s: Seq<char>, i: int) -> Result<Seq<Tok>, ParseError>
    decreases s.len() - i,
    via spec_tokenize_from_decreases
{
    if i < 0 || i >= s.len() {
        Ok(Seq::empty())
    } else {
        let c = s[i];
        if c == '"' {
            let j = close_quote(s, i + 1, '"');
            if j >= s.len() {
                Err(ParseError::UnterminatedQuote)
            } else {
                prepend_tokens(
                    seq![Tok::DoubleQuotedString(s.subrange(i, j + 1))],
                    spec_tokenize_from(s, j + 1),
                )
            }
        } else if c == '\'' {
            let j = close_quote(s, i + 1, '\'');
            if j >= s.len() {
                Err(ParseError::UnterminatedQuote)
            } else {
                prepend_tokens(
                    seq![Tok::SingleQuotedString(s.subrange(i, j + 1))],
                    spec_tokenize_from(s, j + 1),
                )
            }
        } else if c == '&' {
            if i + 1 < s.len() && s[i + 1] == '&' {
                prepend_tokens(seq![Tok::And], spec_tokenize_from(s, i + 2))
            } else {
                Err(ParseError::IncompleteAnd)
            }
        } else if c == '|' {
            if i + 1 < s.len() && s[i + 1] == '|' {
                prepend_tokens(seq![Tok::Or], spec_tokenize_from(s, i + 2))
            } else {
                prepend_tokens(seq![Tok::Pipe], spec_tokenize_from(s, i + 1))
            }
        } else if c == ';' {
            prepend_tokens(seq![Tok::Semicolon], spec_tokenize_from(s, i + 1))
        } else if c == '(' || c == ')' {
            prepend_tokens(seq![Tok::Parenthesis(c)], spec_tokenize_from(s, i + 1))
        } else if word_char(c) {
            let j = word_end(s, i);
            prepend_tokens(seq![Tok::Word(s.subrange(i, j))], spec_tokenize_from(s, j))
        } else if char_whitespace(c) {
            spec_tokenize_from(s, i + 1)
        } else {
            Err(ParseError::InvalidCharacter)
        }
    }
}

#[via_fn]
proof fn spec_tokenize_from_decreases(s: Seq<char>, i: int) {
    if 0 <= i && i < s.len() {
        lemma_close_quote(s, i + 1, '"');
        lemma_close_quote(s, i + 1, '\'');
        lemma_word_end(s, i + 1);
    }
}

/// Reads the maximal word run starting at `*i` and advances `*i` past it.
pub fn get_word(s: &str, i: &mut usize) -> (w: String)
    requires
        *old(i) <= s@.len(),
    ensures
        *old(i) <= *final(i) <= s@.len(),
        *final(i) == word_end(s@, *old(i) as int),
        w@ == s@.subrange(*old(i) as int, *final(i) as int),
{
    let n = s.unicode_len();
    let start = *i;
    let mut cur = start;
    while cur < n && is_word(s.get_char(cur))
        invariant
            start <= cur <= n,
            n == s@.len(),
            word_end(s@, start as int) == word_end(s@, cur as int),
        decreases n - cur,
    {
        proof {
            assert(word_end(s@, cur as int) == word_end(s@, cur as int + 1));
        }
        cur += 1;
    }
    proof {
        assert(word_end(s@, cur as int) == cur as int);
    }
    *i = cur;
    s.substring_char(start, cur).to_owned()
}

/// Reads a quoted span: `*i` stands on the opening `q`; the result keeps both
/// delimiters. Fails when the input ends before a closing `q`.
fn get_quoted_string(s: &str, i: &mut usize, q: char) -> (r: Result<String, ParseError>)
    requires
        *old(i) < s@.len(),
        s@[*old(i) as int] == q,
    ensures
        *old(i) <= *final(i) <= s@.len(),
        ({
            let cq = close_quote(s@, *old(i) + 1, q);
            match r {
                Ok(w) => cq < s@.len() && *final(i) == cq + 1 && w@ == s@.subrange(
                    *old(i) as int,
                    cq + 1,
                ),
                Err(e) => cq == s@.len() && e == ParseError::UnterminatedQuote && *final(i)
                    == s@.len(),
            }
        }),
{
    let n = s.unicode_len();
    let start = *i;
    let mut cur = start + 1;
    while cur < n && s.get_char(cur) != q
        invariant
            start + 1 <= cur <= n,
            n == s@.len(),
            close_quote(s@, start as int + 1, q) == close_quote(s@, cur as int, q),
        decreases n - cur,
    {
        proof {
            assert(close_quote(s@, cur as int, q) == close_quote(s@, cur as int + 1, q));
        }
        cur += 1;
    }
    if cur < n {
        *i = cur + 1;
        Ok(s.substring_char(start, cur + 1).to_owned())
    } else {
        *i = cur;
        Err(ParseError::UnterminatedQuote)
    }
}

/// Reads a double-quoted span beginning at `*i`, delimiters included.
pub fn get_double_quoted_string(s: &str, i: &mut usize) -> (r: Result<String, ParseError>)
    requires
        *old(i) < s@.len(),
        s@[*old(i) as int] == '"',
    ensures
        *old(i) <= *final(i) <= s@.len(),
        ({
            let cq = close_quote(s@, *old(i) + 1, '"');
            match r {
                Ok(w) => cq < s@.len() && *final(i) == cq + 1 && w@ == s@.subrange(
                    *old(i) as int,
                    cq + 1,
                ),
                Err(e) => cq == s@.len() && e == ParseError::UnterminatedQuote && *final(i)
                    == s@.len(),
            }
        }),
{
    get_quoted_string(s, i, '"')
}

/// Reads a single-quoted span beginning at `*i`, delimiters included.
pub fn get_single_quoted_string(s: &str, i: &mut usize) -> (r: Result<String, ParseError>)
    requires
        *old(i) < s@.len(),
        s@[*old(i) as int] == '\'',
    ensures
        *old(i) <= *final(i) <= s@.len(),
        ({
            let cq = close_quote(s@, *old(i) + 1, '\'');
            match r {
                Ok(w) => cq < s@.len() && *final(i) == cq + 1 && w@ == s@.subrange(
                    *old(i) as int,
                    cq + 1,
                ),
                Err(e) => cq == s@.len() && e == ParseError::UnterminatedQuote && *final(i)
                    == s@.len(),
            }
        }),
{
    get_quoted_string(s, i, '\'')
}

/// Reads `&&` beginning at `*i`; a lone `&` is an error.
pub fn get_and(s: &str, i: &mut usize) -> (r: Result<TokenType, ParseError>)
    requires
        *old(i) < s@.len(),
        s@[*old(i) as int] == '&',
    ensures
        *old(i) <= *final(i) <= s@.len(),
        ({
            let p = *old(i) as int;
            if p + 1 < s@.len() && s@[p + 1] == '&' {
                r matches Ok(t) && t@ == Tok::And && *final(i) == p + 2
            } else {
                r matches Err(e) && e == ParseError::IncompleteAnd && *final(i) == p + 1
            }
        }),
{
    let n = s.unicode_len();
    let p = *i;
    if p + 1 < n && s.get_char(p + 1) == '&' {
        *i = p + 2;
        Ok(TokenType::And)
    } else {
        *i = p + 1;
        Err(ParseError::IncompleteAnd)
    }
}

/// Reads `||` or a lone `|` beginning at `*i`.
pub fn get_or_pipe(s: &str, i: &mut usize) -> (t: TokenType)
    requires
        *old(i) < s@.len(),
        s@[*old(i) as int] == '|',
    ensures
        *old(i) <= *final(i) <= s@.len(),
        ({
            let p = *old(i) as int;
            if p + 1 < s@.len() && s@[p + 1] == '|' {
                t@ == Tok::Or && *final(i) == p + 2
            } else {
                t@ == Tok::Pipe && *final(i) == p + 1
            }
        }),
{
    let n = s.unicode_len();
    let p = *i;
    if p + 1 < n && s.get_char(p + 1) == '|' {
        *i = p + 2;
        TokenType::Or
    } else {
        *i = p + 1;
        TokenType::Pipe
    }
}

proof fn lemma_toks_push(ts: Seq<TokenType>, t: TokenType)
    ensures
        toks(ts.push(t)) == toks(ts) + seq![t@],
{
    assert(toks(ts.push(t)) =~= toks(ts) + seq![t@]);
}

proof fn lemma_prepend_assoc(a: Seq<Tok>, b: Seq<Tok>, r: Result<Seq<Tok>, ParseError>)
    ensures
        prepend_tokens(a + b, r) == prepend_tokens(a, prepend_tokens(b, r)),
{
    match r {
        Ok(rest) => {
            assert((a + b) + rest =~= a + (b + rest));
        },
        Err(_) => {},
    }
}

/// Tokenizes a whole line: the result is exactly what
/// [`spec_tokenize_from`] denotes for the line's characters.
pub fn parse(line: &String) -> (r: Result<Vec<TokenType>, ParseError>)
    ensures
        ({
            let t = spec_tokenize_from(line@, 0);
            match r {
                Ok(ts) => t == Ok::<Seq<Tok>, ParseError>(toks(ts@)),
                Err(e) => t == Err::<Seq<Tok>, ParseError>(e),
            }
        }),
{
    let s = line.as_str();
    let n = s.unicode_len();
    let mut tokens: Vec<TokenType> = Vec::new();
    let mut i: usize = 0;
    while i < n
        invariant
            i <= n,
            n == s@.len(),
            s@ == line@,
            spec_tokenize_from(line@, 0) == prepend_tokens(
                toks(tokens@),
                spec_tokenize_from(line@, i as int),
            ),
        decreases n - i,
    {
        let ghost pre = toks(tokens@);
        let ghost i0 = i as int;
        let c = s.get_char(i);
        if c == '"' {
            match get_double_quoted_string(s, &mut i) {
                Ok(w) => {
                    let ghost tok = Tok::DoubleQuotedString(w@);
                    proof {
                        lemma_close_quote(line@, i0 + 1, '"');
                        assert(spec_tokenize_from(line@, i0) == prepend_tokens(
                            seq![tok],
                            spec_tokenize_from(line@, i as int),
                        ));
                    }
                    tokens.push(TokenType::DoubleQuotedString(w));
                    proof {
                        lemma_toks_push(tokens@.drop_last(), tokens@.last());
                        assert(toks(tokens@) =~= pre + seq![tok]);
                        lemma_prepend_assoc(pre, seq![tok], spec_tokenize_from(line@, i as int));
                    }
                },
                Err(e) => {
                    return Err(e);
                },
            }
        } else if c == '\'' {
            match get_single_quoted_string(s, &mut i) {
                Ok(w) => {
                    let ghost tok = Tok::SingleQuotedString(w@);
                    proof {
                        lemma_close_quote(line@, i0 + 1, '\'');
                        assert(spec_tokenize_from(line@, i0) == prepend_tokens(
                            seq![tok],
                            spec_tokenize_from(line@, i as int),
                        ));
                    }
                    tokens.push(TokenType::SingleQuotedString(w));
                    proof {
                        lemma_toks_push(tokens@.drop_last(), tokens@.last());
                        assert(toks(tokens@) =~= pre + seq![tok]);
                        lemma_prepend_assoc(pre, seq![tok], spec_tokenize_from(line@, i as int));
                    }
                },
                Err(e) => {
                    return Err(e);
                },
            }
        } else if c == '&' {
            match get_and(s, &mut i) {
                Ok(t) => {
                    let ghost tok = t@;
                    tokens.push(t);
                    proof {
                        lemma_toks_push(tokens@.drop_last(), tokens@.last());
                        assert(toks(tokens@) =~= pre + seq![tok]);
                        lemma_prepend_assoc(pre, seq![tok], spec_tokenize_from(line@, i as int));
                    }
                },
                Err(e) => {
                    return Err(e);
                },
            }
        } else if c == '|' {
            let t = get_or_pipe(s, &mut i);
            let ghost tok = t@;
            tokens.push(t);
            proof {
                lemma_toks_push(tokens@.drop_last(), tokens@.last());
                assert(toks(tokens@) =~= pre + seq![tok]);
                lemma_prepend_assoc(pre, seq![tok], spec_tokenize_from(line@, i as int));
            }
        } else if c == ';' {
            tokens.push(TokenType::Semicolon);
            i += 1;
            proof {
                lemma_toks_push(tokens@.drop_last(), tokens@.last());
                assert(toks(tokens@) =~= pre + seq![Tok::Semicolon]);
                lemma_prepend_assoc(pre, seq![Tok::Semicolon], spec_tokenize_from(line@, i as int));
            }
        } else if c == '(' || c == ')' {
            tokens.push(TokenType::Parenthesis(c));
            i += 1;
            proof {
                lemma_toks_push(tokens@.drop_last(), tokens@.last());
                assert(toks(tokens@) =~= pre + seq![Tok::Parenthesis(c)]);
                lemma_prepend_assoc(
                    pre,
                    seq![Tok::Parenthesis(c)],
                    spec_tokenize_from(line@, i as int),
                );
            }
        } else if is_word(c) {
            let w = get_word(s, &mut i);
            let ghost tok = Tok::Word(w@);
            proof {
                lemma_word_end(line@, i0 + 1);
                assert(spec_tokenize_from(line@, i0) == prepend_tokens(
                    seq![tok],
                    spec_tokenize_from(line@, i as int),
                ));
            }
            tokens.push(TokenType::Word(w));
            proof {
                lemma_toks_push(tokens@.drop_last(), tokens@.last());
                assert(toks(tokens@) =~= pre + seq![tok]);
                lemma_prepend_assoc(pre, seq![tok], spec_tokenize_from(line@, i as int));
            }
        } else if is_whitespace_char(c) {
            i += 1;
        } else {
            return Err(ParseError::InvalidCharacter);
        }
    }
    proof {
        assert(toks(tokens@) + Seq::<Tok>::empty() =~= toks(tokens@));
    }
    Ok(tokens)
}

/// The end of the non-whitespace run beginning at `i`: the first position at
/// or after `i` that holds a whitespace character, or the end of the input.
pub open spec fn nonws_end(s: Seq<char>, i: int) -> int
    decreases s.len() - i,
{
    if i < 0 || i >= s.len() {
        i
    } else if !char_whitespace(s[i]) {
        nonws_end(s, i + 1)
    } else {
        i
    }
}

proof fn lemma_nonws_end(s: Seq<char>, i: int)
    requires
        0 <= i <= s.len(),
    ensures
        i <= nonws_end(s, i) <= s.len(),
    decreases s.len() - i,
{
    if i < s.len() && !char_whitespace(s[i]) {
        lemma_nonws_end(s, i + 1);
    }
}

/// Naive whitespace splitting from `i` on: the maximal non-whitespace runs
/// of `s`, in order, with the whitespace between them dropped.
pub open spec fn naive_split_from(s: Seq<char>, i: int) -> Seq<Seq<char>>
    decreases s.len() - i,
    via naive_split_from_decreases
{
    if i < 0 || i >= s.len() {
        Seq::empty()
    } else if char_whitespace(s[i]) {
        naive_split_from(s, i + 1)
    } else {
        let j = nonws_end(s, i);
        seq![s.subrange(i, j)] + naive_split_from(s, j)
    }
}

#[via_fn]
proof fn naive_split_from_decreases(s: Seq<char>, i: int) {
    if 0 <= i && i < s.len() {
        lemma_nonws_end(s, i + 1);
    }
}

/// Naive whitespace splitting of a whole line.
pub open spec fn naive_split(s: Seq<char>) -> Seq<Seq<char>> {
    naive_split_from(s, 0)
}

proof fn lemma_runs_agree(s: Seq<char>, i: int)
    requires
        0 <= i <= s.len(),
        forall|j: int| 0 <= j < s.len() ==> (word_char(s[j]) != char_whitespace(s[j])),
    ensures
        word_end(s, i) == nonws_end(s, i),
    decreases s.len() - i,
{
    if i < s.len() && word_char(s[i]) {
        lemma_runs_agree(s, i + 1);
    }
}

proof fn lemma_tokenize_splits_from(s: Seq<char>, i: int)
    requires
        0 <= i <= s.len(),
        forall|j: int| 0 <= j < s.len() ==> (word_char(s[j]) != char_whitespace(s[j])),
    ensures
        spec_tokenize_from(s, i) == Ok::<Seq<Tok>, ParseError>(
            naive_split_from(s, i).map_values(|w: Seq<char>| Tok::Word(w)),
        ),
    decreases s.len() - i,
{
    if i >= s.len() {
        assert(naive_split_from(s, i).map_values(|w: Seq<char>| Tok::Word(w))
            =~= Seq::<Tok>::empty());
    } else if char_whitespace(s[i]) {
        lemma_tokenize_splits_from(s, i + 1);
    } else {
        lemma_runs_agree(s, i);
        let j = word_end(s, i);
        lemma_word_end(s, i + 1);
        lemma_tokenize_splits_from(s, j);
        assert((seq![s.subrange(i, j)] + naive_split_from(s, j)).map_values(
            |w: Seq<char>| Tok::Word(w),
        ) =~= seq![Tok::Word(s.subrange(i, j))] + naive_split_from(s, j).map_values(
            |w: Seq<char>| Tok::Word(w),
        ));
    }
}

/// For a line whose every character is either a word character or a
/// whitespace character — never both, which rules quotes and operators
/// out — tokenization succeeds and yields exactly one `Word` token for each
/// piece of naive whitespace splitting, in order.
pub proof fn lemma_tokenize_splits_on_whitespace(s: Seq<char>)
    requires
        forall|j: int| 0 <= j < s.len() ==> (word_char(s[j]) != char_whitespace(s[j])),
    ensures
        spec_tokenize_from(s, 0) == Ok::<Seq<Tok>, ParseError>(
            naive_split(s).map_values(|w: Seq<char>| Tok::Word(w)),
        ),
{
    lemma_tokenize_splits_from(s, 0);
}

} // verus!
