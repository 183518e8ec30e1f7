use vstd::prelude::*;
use vstd::string::StringSliceAdditionalSpecFns;

use super::token::{classify, Token, TokenModel};

verus! {

/// The ASCII whitespace characters: space, tab, line feed, vertical tab,
/// form feed and carriage return.
pub open spec fn is_space(c: u8) -> bool {
    c == ' ' as u8 || c == 0x09 || c == 0x0A || c == 0x0B || c == 0x0C || c == 0x0D
}

/// Splitting `text` read so far: the words completed, and the word being
/// read (empty between words).
pub open spec fn words_so_far(text: Seq<u8>) -> (Seq<Seq<u8>>, Seq<u8>)
    decreases text.len(),
{
    if text.len() == 0 {
        (Seq::empty(), Seq::empty())
    } else {
        let (done, current) = words_so_far(text.drop_last());
        let c = text.last();
        if is_space(c) {
            if current.len() > 0 { (done.push(current), Seq::empty()) } else { (done, Seq::empty()) }
        } else {
            (done, current.push(c))
        }
    }
}

/// The maximal runs of non-whitespace characters of `text`, in order.
pub open spec fn words(text: Seq<u8>) -> Seq<Seq<u8>> {
    let (done, current) = words_so_far(text);
    if current.len() > 0 { done.push(current) } else { done }
}

/// The tokens of `text`: its words, each sorted by `classify`.
pub open spec fn tokenize(text: Seq<u8>) -> Seq<TokenModel> {
    words(text).map_values(|w: Seq<u8>| classify(w))
}

/// The text a token holds: the word, or the part of it after `0x` or `V`.
pub open spec fn token_text(t: TokenModel) -> Seq<u8> {
    match t {
        TokenModel::Empty => Seq::empty(),
        TokenModel::Meta(s) | TokenModel::Hex(s) | TokenModel::Register(s) | TokenModel::Other(s) => s,
    }
}

/// A byte that is one of the ASCII whitespace characters: space, tab, line
/// feed, vertical tab, form feed, carriage return.
pub open spec fn ascii_whitespace(c: u8) -> bool {
    c == 0x20 || c == 0x09 || c == 0x0A || c == 0x0B || c == 0x0C || c == 0x0D
}

proof fn lemma_words_so_far_unspaced(text: Seq<u8>)
    ensures
        forall|k: int, i: int| 0 <= k < words_so_far(text).0.len() && 0 <= i < words_so_far(text).0[k].len()
            ==> !ascii_whitespace(#[trigger] words_so_far(text).0[k][i]),
        forall|k: int| 0 <= k < words_so_far(text).0.len() ==> #[trigger] words_so_far(text).0[k].len() > 0,
        forall|i: int| 0 <= i < words_so_far(text).1.len() ==> !ascii_whitespace(#[trigger] words_so_far(text).1[i]),
    decreases text.len(),
{
    if text.len() > 0 {
        lemma_words_so_far_unspaced(text.drop_last());
        let (done, current) = words_so_far(text.drop_last());
        let c = text.last();
        let (done2, current2) = words_so_far(text);
        if is_space(c) {
            if current.len() > 0 {
                assert(done2 == done.push(current));
                assert forall|k: int, i: int| 0 <= k < done2.len() && 0 <= i < done2[k].len()
                    implies !ascii_whitespace(#[trigger] done2[k][i]) by {
                    if k < done.len() {
                        assert(done2[k] == done[k]);
                    } else {
                        assert(done2[k] == current);
                    }
                }
                assert forall|k: int| 0 <= k < done2.len() implies #[trigger] done2[k].len() > 0 by {
                    if k < done.len() {
                        assert(done2[k] == done[k]);
                    }
                }
            } else {
                assert(done2 == done);
            }
        } else {
            assert(done2 == done);
            assert(current2 == current.push(c));
            assert forall|i: int| 0 <= i < current2.len() implies !ascii_whitespace(#[trigger] current2[i]) by {
                if i < current.len() {
                    assert(current2[i] == current[i]);
                }
            }
        }
    }
}

/// No word holds an ASCII whitespace character, and none is empty.
pub proof fn lemma_words_unspaced(text: Seq<u8>)
    ensures
        forall|k: int, i: int| 0 <= k < words(text).len() && 0 <= i < words(text)[k].len()
            ==> !ascii_whitespace(#[trigger] words(text)[k][i]),
        forall|k: int| 0 <= k < words(text).len() ==> #[trigger] words(text)[k].len() > 0,
{
    lemma_words_so_far_unspaced(text);
}

/// No token read from a line holds an ASCII whitespace character (space,
/// tab, line feed, vertical tab, form feed or carriage return), and every
/// token is a word, not `Empty`.
pub proof fn lemma_tokens_unspaced(text: Seq<u8>)
    ensures
        forall|k: int, i: int| 0 <= k < read_tokens(text).len() && 0 <= i < token_text(read_tokens(text)[k]).len()
            ==> !ascii_whitespace(#[trigger] token_text(read_tokens(text)[k])[i]),
        forall|k: int| 0 <= k < read_tokens(text).len() ==> !(#[trigger] read_tokens(text)[k] is Empty),
{
    let ws = words(normalize(text));
    lemma_words_unspaced(normalize(text));
    let ts = read_tokens(text);
    assert forall|k: int, i: int| 0 <= k < ts.len() && 0 <= i < token_text(ts[k]).len()
        implies !ascii_whitespace(#[trigger] token_text(ts[k])[i]) by {
        let w = ws[k];
        assert(ts[k] == classify(w));
        let t = token_text(ts[k]);
        if w.len() > 1 && w[0] == '0' as u8 && w[1] == 'x' as u8 {
            assert(t[i] == w[i + 2]);
        } else if w[0] == 'V' as u8 && w.len() == 2 {
            assert(t[i] == w[i + 1]);
        } else {
            assert(t[i] == w[i]);
        }
    }
    assert forall|k: int| 0 <= k < ts.len() implies !(#[trigger] ts[k] is Empty) by {
        assert(ts[k] == classify(ws[k]));
        assert(ws[k].len() > 0);
    }
}

/// The length in bytes of the whitespace character outside ASCII that the
/// UTF-8 text `t` starts with, or 0 where it starts with none: U+0085,
/// U+00A0, U+1680, U+2000 to U+200A, U+2028, U+2029, U+202F, U+205F and
/// U+3000.
pub open spec fn wide_space_len(t: Seq<u8>) -> int {
    if t.len() >= 2 && t[0] == 0xC2 && (t[1] == 0x85 || t[1] == 0xA0) {
        2
    } else if t.len() >= 3 && t[0] == 0xE1 && t[1] == 0x9A && t[2] == 0x80 {
        3
    } else if t.len() >= 3 && t[0] == 0xE2 && t[1] == 0x80
        && ((0x80 <= t[2] && t[2] <= 0x8A) || t[2] == 0xA8 || t[2] == 0xA9 || t[2] == 0xAF) {
        3
    } else if t.len() >= 3 && t[0] == 0xE2 && t[1] == 0x81 && t[2] == 0x9F {
        3
    } else if t.len() >= 3 && t[0] == 0xE3 && t[1] == 0x80 && t[2] == 0x80 {
        3
    } else {
        0
    }
}

/// `t` with every whitespace character outside ASCII replaced by a space.
pub open spec fn normalize(t: Seq<u8>) -> Seq<u8>
    decreases t.len(),
{
    if t.len() == 0 {
        Seq::empty()
    } else if wide_space_len(t) > 0 {
        seq![' ' as u8] + normalize(t.skip(wide_space_len(t)))
    } else {
        seq![t[0]] + normalize(t.skip(1))
    }
}

/// The tokens of a line of UTF-8 text: its words, split at every Unicode
/// whitespace character, each sorted by `classify`.
pub open spec fn read_tokens(text: Seq<u8>) -> Seq<TokenModel> {
    tokenize(normalize(text))
}

/// The length of the wide whitespace character at `i`; see
/// `wide_space_len`.
fn wide_space_at(text: &[u8], i: usize) -> (k: usize)
    requires
        i <= text@.len(),
    ensures
        k == wide_space_len(text@.skip(i as int)),
{
    let ghost t = text@.skip(i as int);
    let n = text.len() - i;
    if n >= 2 && text[i] == 0xC2 && (text[i + 1] == 0x85 || text[i + 1] == 0xA0) {
        return 2;
    }
    if n >= 3 {
        let (a, b, c) = (text[i], text[i + 1], text[i + 2]);
        assert(a == t[0] && b == t[1] && c == t[2]);
        if a == 0xE1 && b == 0x9A && c == 0x80 {
            return 3;
        }
        if a == 0xE2 && b == 0x80 && ((0x80 <= c && c <= 0x8A) || c == 0xA8 || c == 0xA9 || c == 0xAF) {
            return 3;
        }
        if a == 0xE2 && b == 0x81 && c == 0x9F {
            return 3;
        }
        if a == 0xE3 && b == 0x80 && c == 0x80 {
            return 3;
        }
    }
    0
}

/// `text` with every whitespace character outside ASCII replaced by a space.
fn normalized(text: &[u8]) -> (out: Vec<u8>)
    ensures
        out@ == normalize(text@),
{
    let mut out: Vec<u8> = Vec::new();
    let mut i: usize = 0;
    assert(text@.skip(0) =~= text@);
    while i < text.len()
        invariant
            i <= text@.len(),
            out@ + normalize(text@.skip(i as int)) == normalize(text@),
        decreases text@.len() - i,
    {
        let ghost rest = text@.skip(i as int);
        let k = wide_space_at(text, i);
        if k > 0 {
            out.push(' ' as u8);
            assert(rest.skip(k as int) =~= text@.skip(i + k));
            i = i + k;
        } else {
            assert(rest[0] == text@[i as int]);
            out.push(text[i]);
            assert(rest.skip(1) =~= text@.skip(i + 1));
            i = i + 1;
        }
        assert(out@ + normalize(text@.skip(i as int)) =~= normalize(text@));
    }
    assert(normalize(text@.skip(i as int)) =~= Seq::<u8>::empty());
    assert(out@ =~= normalize(text@));
    out
}

/// The tokens of a line that are still to be read, first one first.
#[derive(Debug)]
pub struct Tokens {
    pub tokens: Vec<Token>,
}

impl View for Tokens {
    type V = Seq<TokenModel>;

    open spec fn view(&self) -> Seq<TokenModel> {
        self.tokens@.map_values(|t: Token| t@)
    }
}

impl Tokens {
    /// The tokens of a line of text.
    pub fn from_str(raw: &str) -> (tokens: Tokens)
        ensures
            tokens@ == read_tokens(raw.spec_bytes()),
    {
        Tokens::from_bytes(raw.as_bytes())
    }

    /// The tokens of a line of UTF-8 text given as its bytes.
    pub fn from_bytes(text: &[u8]) -> (tokens: Tokens)
        ensures
            tokens@ == read_tokens(text@),
    {
        let spaced = normalized(text);
        Tokens::split(spaced.as_slice())
    }

    /// The tokens of text whose only whitespace is ASCII.
    fn split(text: &[u8]) -> (tokens: Tokens)
        ensures
            tokens@ == tokenize(text@),
    {
        let mut tokens: Vec<Token> = Vec::new();
        let mut current: Vec<u8> = Vec::new();
        let mut i: usize = 0;
        while i < text.len()
            invariant
                i <= text@.len(),
                tokens@.map_values(|t: Token| t@)
                    == words_so_far(text@.subrange(0, i as int)).0.map_values(|w: Seq<u8>| classify(w)),
                current@ == words_so_far(text@.subrange(0, i as int)).1,
            decreases text@.len() - i,
        {
            let ghost prefix = text@.subrange(0, i as int + 1);
            assert(prefix.drop_last() =~= text@.subrange(0, i as int));
            let c = text[i];
            if c == ' ' as u8 || c == 0x09 || c == 0x0A || c == 0x0B || c == 0x0C || c == 0x0D {
                if current.len() > 0 {
                    let token = Token::from_word(current.as_slice());
                    let ghost before = tokens@;
                    tokens.push(token);
                    assert(tokens@.map_values(|t: Token| t@)
                        =~= before.map_values(|t: Token| t@).push(token@));
                    current = Vec::new();
                }
            } else {
                current.push(c);
            }
            i = i + 1;
        }
        assert(text@.subrange(0, text@.len() as int) =~= text@);
        if current.len() > 0 {
            let token = Token::from_word(current.as_slice());
            let ghost before = tokens@;
            tokens.push(token);
            assert(tokens@.map_values(|t: Token| t@) =~= before.map_values(|t: Token| t@).push(token@));
        }
        let result = Tokens { tokens };
        assert(result@ =~= tokenize(text@));
        result
    }

    /// The next token, without taking it.
    pub fn peek(&self) -> (t: Option<&Token>)
        ensures
            self@.len() == 0 ==> t is None,
            self@.len() > 0 ==> (t matches Some(token) && token@ == self@[0]),
    {
        if self.tokens.len() > 0 {
            Some(&self.tokens[0])
        } else {
            None
        }
    }

    /// Takes the next token.
    pub fn next(&mut self) -> (t: Option<Token>)
        ensures
            old(self)@.len() == 0 ==> t is None && final(self)@ == old(self)@,
            old(self)@.len() > 0 ==> (t matches Some(token) && token@ == old(self)@[0])
                && final(self)@ == old(self)@.drop_first(),
    {
        if self.tokens.len() > 0 {
            let token = self.tokens.remove(0);
            assert(self@ =~= old(self)@.drop_first());
            Some(token)
        } else {
            None
        }
    }
}

} // verus!
