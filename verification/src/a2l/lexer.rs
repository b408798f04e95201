//! Tokenizer for A2L (ASAP2) files.
//!
//! A2L uses a simple token grammar: C-style block comments, quoted strings, and
//! words, which are runs of anything but white space and quotes. That takes in
//! `/begin`, `/end`, numbers and bare names.

use vstd::prelude::*;
use vstd::slice::slice_subrange;

use crate::bytes::bytes_eq;

verus! {

/// ASCII white space.
pub open spec fn is_space(b: u8) -> bool {
    b == 0x20 || b == 0x09 || b == 0x0A || b == 0x0C || b == 0x0D
}

fn space(b: u8) -> (r: bool)
    ensures
        r == is_space(b),
{
    b == 0x20 || b == 0x09 || b == 0x0A || b == 0x0C || b == 0x0D
}

/// Whether a comment opens at `p`.
pub open spec fn opens_comment(s: Seq<u8>, p: int) -> bool {
    p + 1 < s.len() && s[p] == 0x2F && s[p + 1] == 0x2A
}

/// Where a comment ends whose contents start at `p`: behind `*/`, or at the last
/// byte if it is never closed.
pub open spec fn comment_end(s: Seq<u8>, p: int) -> int
    decreases s.len() - p,
{
    if p + 1 < s.len() {
        if s[p] == 0x2A && s[p + 1] == 0x2F {
            p + 2
        } else {
            comment_end(s, p + 1)
        }
    } else {
        p
    }
}

/// A comment ends behind where its contents start, and inside the input.
pub proof fn lemma_comment_end(s: Seq<u8>, p: int)
    requires
        p <= s.len(),
    ensures
        p <= comment_end(s, p) <= s.len(),
    decreases s.len() - p,
{
    if p + 1 < s.len() && !(s[p] == 0x2A && s[p + 1] == 0x2F) {
        lemma_comment_end(s, p + 1);
    }
}

/// Where the white space and comments end that start at `p`.
pub open spec fn gap_end(s: Seq<u8>, p: int) -> int
    decreases s.len() - p,
{
    if p < s.len() && is_space(s[p]) {
        gap_end(s, p + 1)
    } else if opens_comment(s, p) {
        proof {
            lemma_comment_end(s, p + 2);
        }
        gap_end(s, comment_end(s, p + 2))
    } else {
        p
    }
}

/// Where a string ends whose contents start at `p`. A backslash takes the byte
/// after it along; at the very end of the input there is none to take.
pub open spec fn string_end(s: Seq<u8>, p: int) -> int
    decreases s.len() - p,
{
    if p >= s.len() {
        s.len() as int
    } else if s[p] == 0x22 {
        p
    } else if s[p] == 0x5C {
        if p + 1 < s.len() {
            string_end(s, p + 2)
        } else {
            s.len() as int
        }
    } else {
        string_end(s, p + 1)
    }
}

/// Where a word ends that starts at `p`.
pub open spec fn word_end(s: Seq<u8>, p: int) -> int
    decreases s.len() - p,
{
    if p >= s.len() || is_space(s[p]) || s[p] == 0x22 || opens_comment(s, p) {
        p
    } else {
        word_end(s, p + 1)
    }
}

/// A token as a value.
pub enum Tok {
    Str(Seq<u8>),
    Word(Seq<u8>),
}

/// The first token from `p` on and where it ends. `None` at the end of input.
pub open spec fn token_at(s: Seq<u8>, p: int) -> Option<(Tok, int)> {
    let q = gap_end(s, p);
    if q >= s.len() {
        None
    } else if s[q] == 0x22 {
        let e = string_end(s, q + 1);
        Some(
            (
                Tok::Str(s.subrange(q + 1, e)),
                if e < s.len() {
                    e + 1
                } else {
                    e
                },
            ),
        )
    } else {
        let e = word_end(s, q);
        Some((Tok::Word(s.subrange(q, e)), e))
    }
}

/// Behind a gap there is neither white space nor a comment.
pub proof fn lemma_gap_end(s: Seq<u8>, p: int)
    requires
        p <= s.len(),
    ensures
        p <= gap_end(s, p) <= s.len(),
        gap_end(s, p) < s.len() ==> !is_space(s[gap_end(s, p)]) && !opens_comment(s, gap_end(s, p)),
    decreases s.len() - p,
{
    if p < s.len() && is_space(s[p]) {
        lemma_gap_end(s, p + 1);
    } else if opens_comment(s, p) {
        lemma_comment_end(s, p + 2);
        lemma_gap_end(s, comment_end(s, p + 2));
    }
}

/// A string ends behind where its contents start, and inside the input.
pub proof fn lemma_string_end(s: Seq<u8>, p: int)
    requires
        p <= s.len(),
    ensures
        p <= string_end(s, p) <= s.len(),
    decreases s.len() - p,
{
    if p < s.len() && s[p] != 0x22 {
        if s[p] == 0x5C {
            if p + 1 < s.len() {
                lemma_string_end(s, p + 2);
            }
        } else {
            lemma_string_end(s, p + 1);
        }
    }
}

/// A word ends inside the input, and is empty only where none starts.
pub proof fn lemma_word_end(s: Seq<u8>, p: int)
    requires
        p <= s.len(),
    ensures
        p <= word_end(s, p) <= s.len(),
        word_end(s, p) > p || p >= s.len() || is_space(s[p]) || s[p] == 0x22 || opens_comment(s, p),
    decreases s.len() - p,
{
    if p < s.len() && !is_space(s[p]) && s[p] != 0x22 && !opens_comment(s, p) {
        lemma_word_end(s, p + 1);
    }
}

/// A token ends behind where the search for it started, and inside the input.
pub proof fn lemma_token_moves_on(s: Seq<u8>, p: int)
    requires
        0 <= p <= s.len(),
    ensures
        token_at(s, p) matches Some((_, e)) ==> p < e <= s.len(),
{
    lemma_gap_end(s, p);
    let q = gap_end(s, p);
    if q < s.len() {
        if s[q] == 0x22 {
            lemma_string_end(s, q + 1);
        } else {
            lemma_word_end(s, q);
        }
    }
}

/// The tokens from `p` on.
pub open spec fn tokens(s: Seq<u8>, p: int) -> Seq<Tok>
    decreases s.len() - p,
{
    if 0 <= p <= s.len() {
        match token_at(s, p) {
            None => Seq::empty(),
            Some((tok, e)) => {
                proof {
                    lemma_token_moves_on(s, p);
                }
                seq![tok] + tokens(s, e)
            },
        }
    } else {
        Seq::empty()
    }
}

/// Whether a comment is closed whose contents start at `p`.
pub open spec fn comment_closes(s: Seq<u8>, p: int) -> bool
    decreases s.len() - p,
{
    p + 1 < s.len() && ((s[p] == 0x2A && s[p + 1] == 0x2F) || comment_closes(s, p + 1))
}

/// Whether the comments in the gap that starts at `p` are closed.
pub open spec fn gap_closed(s: Seq<u8>, p: int) -> bool
    decreases s.len() - p,
{
    if p < s.len() && is_space(s[p]) {
        gap_closed(s, p + 1)
    } else if opens_comment(s, p) {
        proof {
            lemma_comment_end(s, p + 2);
        }
        comment_closes(s, p + 2) && gap_closed(s, comment_end(s, p + 2))
    } else {
        true
    }
}

/// Whether every string and every comment from `p` on is closed.
pub open spec fn closed(s: Seq<u8>, p: int) -> bool
    decreases s.len() - p,
{
    if 0 <= p <= s.len() {
        gap_closed(s, p) && match token_at(s, p) {
            None => true,
            Some((tok, e)) => {
                proof {
                    lemma_token_moves_on(s, p);
                }
                (tok is Str ==> string_end(s, gap_end(s, p) + 1) < s.len()) && closed(s, e)
            },
        }
    } else {
        true
    }
}

/// A token: what stands between quotes, or a word.
#[derive(Debug, Clone, Copy)]
pub enum Token<'a> {
    /// A quoted string, without the quotes.
    Str(&'a [u8]),
    /// Any other token.
    Word(&'a [u8]),
}

impl<'a> View for Token<'a> {
    type V = Tok;

    open spec fn view(&self) -> Tok {
        match self {
            Token::Str(b) => Tok::Str(b@),
            Token::Word(b) => Tok::Word(b@),
        }
    }
}

impl Tok {
    /// The bytes of a token.
    pub open spec fn bytes(self) -> Seq<u8> {
        match self {
            Tok::Str(b) => b,
            Tok::Word(b) => b,
        }
    }

    /// Whether the token is the given word.
    pub open spec fn is_word(self, word: Seq<char>) -> bool {
        self == Tok::Word(vstd::utf8::encode_utf8(word))
    }
}

/// Latin-1 bytes as text: each byte is its own code point.
pub open spec fn latin_text(b: Seq<u8>) -> Seq<char> {
    b.map_values(|x: u8| x as char)
}

/// Each byte as its own code point.
pub fn latin_chars(b: &[u8]) -> (s: String)
    ensures
        s@ == b@.map_values(|x: u8| x as char),
{
    let ghost all = b@.map_values(|x: u8| x as char);
    let mut s = String::new();
    let mut i: usize = 0;
    assert(s@ == all.take(0));
    while i < b.len()
        invariant
            i <= b@.len(),
            all == b@.map_values(|x: u8| x as char),
            s@ == all.take(i as int),
        decreases b@.len() - i,
    {
        s.push(b[i] as char);
        assert(all.take(i + 1) == all.take(i as int).push(all[i as int]));
        i = i + 1;
    }
    assert(all.take(i as int) == all);
    s
}

impl<'a> Token<'a> {
    /// The token as text. A2L files are typically Latin-1 encoded, so each byte
    /// is its own code point.
    pub fn as_str_lossy(&self) -> (s: String)
        ensures
            s@ == self@.bytes().map_values(|x: u8| x as char),
    {
        latin_chars(self.as_bytes())
    }

    /// The bytes of the token.
    pub fn as_bytes(&self) -> (b: &'a [u8])
        ensures
            b@ == self@.bytes(),
    {
        match self {
            Token::Str(b) => b,
            Token::Word(b) => b,
        }
    }

    /// Whether the token is the given word.
    pub fn eq_word(&self, word: &str) -> (r: bool)
        ensures
            r == self@.is_word(word@),
    {
        match self {
            Token::Str(_) => false,
            Token::Word(b) => bytes_eq(b, word.as_bytes()),
        }
    }
}

/// A position in the text of an A2L file.
#[derive(Debug, Clone)]
pub struct Lexer<'a> {
    pub src: &'a [u8],
    pub pos: usize,
}

impl<'a> Lexer<'a> {
    /// Whether the position lies inside the text.
    pub open spec fn wf(self) -> bool {
        self.pos <= self.src@.len()
    }

    /// Start at the beginning.
    pub fn new(src: &'a [u8]) -> (r: Self)
        ensures
            r.wf(),
            r.src == src,
            r.pos == 0,
    {
        Lexer { src, pos: 0 }
    }

    /// The next token, or `None` at the end of input.
    pub fn next_token(&mut self) -> (r: Option<Token<'a>>)
        requires
            old(self).wf(),
        ensures
            final(self).wf(),
            final(self).src == old(self).src,
            match r {
                None => token_at(old(self).src@, old(self).pos as int) is None && final(self).pos
                    == final(self).src@.len(),
                Some(t) => token_at(old(self).src@, old(self).pos as int) == Some(
                    (t@, final(self).pos as int),
                ),
            },
    {
        let start: usize = self.pos;
        proof {
            lemma_gap_end(self.src@, start as int);
        }
        self.skip_ws_and_comments();
        if self.pos >= self.src.len() {
            return None;
        }
        if self.src[self.pos] == 0x22 {
            Some(self.read_string())
        } else {
            Some(self.read_word())
        }
    }

    /// The next token, without moving on.
    pub fn peek_token(&self) -> (r: Option<Token<'a>>)
        requires
            self.wf(),
        ensures
            match r {
                None => token_at(self.src@, self.pos as int) is None,
                Some(t) => token_at(self.src@, self.pos as int) matches Some((tok, _)) && tok == t@,
            },
    {
        let mut ahead = Lexer { src: self.src, pos: self.pos };
        ahead.next_token()
    }

    fn skip_ws_and_comments(&mut self)
        requires
            old(self).wf(),
        ensures
            final(self).wf(),
            final(self).src == old(self).src,
            final(self).pos == gap_end(old(self).src@, old(self).pos as int),
    {
        let src = self.src;
        let len: usize = src.len();
        let mut p: usize = self.pos;
        let ghost start = self.pos as int;
        loop
            invariant_except_break
                p <= len,
                len == src@.len(),
                gap_end(src@, start) == gap_end(src@, p as int),
            ensures
                p <= len,
                p == gap_end(src@, start),
            decreases len - p,
        {
            if p < len && space(src[p]) {
                p = p + 1;
            } else if p < len && len - p > 1 && src[p] == 0x2F && src[p + 1] == 0x2A {
                proof {
                    lemma_comment_end(src@, p + 2);
                }
                let ghost inside = p + 2;
                p = p + 2;
                while len - p > 1 && !(src[p] == 0x2A && src[p + 1] == 0x2F)
                    invariant
                        inside <= p <= len,
                        len == src@.len(),
                        comment_end(src@, inside) == comment_end(src@, p as int),
                    decreases len - p,
                {
                    p = p + 1;
                }
                if len - p > 1 {
                    p = p + 2;
                }
                assert(p == comment_end(src@, inside));
            } else {
                break ;
            }
        }
        self.pos = p;
    }

    fn read_string(&mut self) -> (t: Token<'a>)
        requires
            old(self).wf(),
            old(self).pos < old(self).src@.len(),
        ensures
            final(self).wf(),
            final(self).src == old(self).src,
            ({
                let s = old(self).src@;
                let e = string_end(s, old(self).pos + 1);
                &&& t@ == Tok::Str(s.subrange(old(self).pos + 1, e))
                &&& final(self).pos == if e < s.len() {
                    e + 1
                } else {
                    e
                }
            }),
    {
        let src = self.src;
        let len: usize = src.len();
        let start: usize = self.pos + 1;
        let mut p: usize = start;
        while p < len && src[p] != 0x22
            invariant
                start <= p <= len,
                len == src@.len(),
                string_end(src@, start as int) == string_end(src@, p as int),
            decreases len - p,
        {
            if src[p] == 0x5C && len - p > 1 {
                p = p + 2;
            } else {
                p = p + 1;
            }
        }
        assert(string_end(src@, start as int) == p);
        let part = slice_subrange(src, start, p);
        self.pos = if p < len {
            p + 1
        } else {
            p
        };
        Token::Str(part)
    }

    fn read_word(&mut self) -> (t: Token<'a>)
        requires
            old(self).wf(),
        ensures
            final(self).wf(),
            final(self).src == old(self).src,
            ({
                let s = old(self).src@;
                let e = word_end(s, old(self).pos as int);
                t@ == Tok::Word(s.subrange(old(self).pos as int, e)) && final(self).pos == e
            }),
    {
        let src = self.src;
        let len: usize = src.len();
        let start: usize = self.pos;
        let mut p: usize = start;
        while p < len && !space(src[p]) && src[p] != 0x22 && !(len - p > 1 && src[p] == 0x2F && src[p
            + 1] == 0x2A)
            invariant
                start <= p <= len,
                len == src@.len(),
                word_end(src@, start as int) == word_end(src@, p as int),
            decreases len - p,
        {
            p = p + 1;
        }
        let part = slice_subrange(src, start, p);
        self.pos = p;
        Token::Word(part)
    }
}

/// Several tokens as values.
pub open spec fn toks<'a>(v: Seq<Token<'a>>) -> Seq<Tok> {
    v.map_values(|t: Token<'a>| t@)
}

/// The tokens of a text.
pub fn tokenize<'a>(src: &'a [u8]) -> (v: Vec<Token<'a>>)
    ensures
        toks(v@) == tokens(src@, 0),
{
    let mut lexer = Lexer::new(src);
    let mut v: Vec<Token<'a>> = Vec::new();
    assert(toks(v@) + tokens(src@, 0) == tokens(src@, 0));
    loop
        invariant_except_break
            lexer.wf(),
            lexer.src == src,
            toks(v@) + tokens(src@, lexer.pos as int) == tokens(src@, 0),
        ensures
            toks(v@) == tokens(src@, 0),
        decreases src@.len() - lexer.pos,
    {
        let ghost at = lexer.pos as int;
        let ghost before = toks(v@);
        proof {
            lemma_token_moves_on(src@, at);
        }
        match lexer.next_token() {
            None => {
                assert(tokens(src@, at) == Seq::<Tok>::empty());
                assert(before + Seq::<Tok>::empty() == before);
                break ;
            },
            Some(t) => {
                v.push(t);
                assert(toks(v@) == before.push(t@));
                assert(before + (seq![t@] + tokens(src@, lexer.pos as int)) == toks(v@) + tokens(
                    src@,
                    lexer.pos as int,
                ));
            },
        }
    }
    v
}

} // verus!
