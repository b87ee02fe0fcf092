//! A character-level lexer for SQL. Spaces matter in SQL, so it keeps them
//! as tokens of their own before grouping characters into words.

use vstd::prelude::*;
use crate::symbols::{PreprocessedTokenTypes, PreprocessedView, classify_word};
use crate::text::{chars_of, string_from_chars, trim_end, trim_end_chars};
use crate::tokens::{OperatorType, PreprocessedToken, Token, TokenType, preprocessed_view};

verus! {

/// The number of bytes of a character in UTF-8.
pub open spec fn utf8_width(c: char) -> nat {
    if (c as u32) < 0x80 {
        1
    } else if (c as u32) < 0x800 {
        2
    } else if (c as u32) < 0x10000 {
        3
    } else {
        4
    }
}

/// The number of bytes of a text in UTF-8.
pub open spec fn byte_len(s: Seq<char>) -> nat
    decreases s.len(),
{
    if s.len() == 0 {
        0
    } else {
        byte_len(s.drop_last()) + utf8_width(s.last())
    }
}

/// The token type of a character.
pub open spec fn kind_of(c: char) -> TokenType {
    if c == '=' {
        TokenType::Operator(OperatorType::Equal)
    } else if c == ';' {
        TokenType::SemiColon
    } else if c == ' ' {
        TokenType::WhiteSpace
    } else {
        TokenType::Misc
    }
}

/// Where the lexer stands after a prefix of the input: the tokens made so
/// far, the word being read, and whether a semicolon was seen.
pub struct LexState {
    pub done: Seq<PreprocessedView>,
    pub buffer: Seq<char>,
    pub eof: bool,
}

/// The tokens with the word being read added, if there is one.
pub open spec fn flush(done: Seq<PreprocessedView>, buffer: Seq<char>) -> Seq<PreprocessedView> {
    if buffer.len() == 0 {
        done
    } else {
        done.push(classify_word(buffer))
    }
}

/// A space or a semicolon ends a word; `=` ends a word and is an operator
/// token; any other character extends the word.
pub open spec fn lex_step(st: LexState, c: char) -> LexState {
    if c == ' ' || c == ';' {
        LexState { done: flush(st.done, st.buffer), buffer: Seq::empty(), eof: st.eof || c == ';' }
    } else if c == '=' {
        LexState {
            done: flush(st.done, st.buffer).push(PreprocessedView::Operator(OperatorType::Equal)),
            buffer: Seq::empty(),
            eof: st.eof,
        }
    } else {
        LexState { buffer: st.buffer.push(c), ..st }
    }
}

pub open spec fn lex_state(s: Seq<char>) -> LexState
    decreases s.len(),
{
    if s.len() == 0 {
        LexState { done: Seq::empty(), buffer: Seq::empty(), eof: false }
    } else {
        lex_step(lex_state(s.drop_last()), s.last())
    }
}

/// The preprocessed tokens of a text: its words, symbols and operators, and
/// a final `;` token where the text holds a semicolon.
pub open spec fn lex(s: Seq<char>) -> Seq<PreprocessedView> {
    let st = lex_state(s);
    flush(st.done, st.buffer) + if st.eof {
        seq![classify_word(seq![';'])]
    } else {
        Seq::empty()
    }
}

proof fn lemma_byte_len_prefix(s: Seq<char>, i: int)
    requires
        0 <= i <= s.len(),
    ensures
        byte_len(s.take(i)) <= byte_len(s),
    decreases s.len() - i,
{
    if i < s.len() {
        lemma_byte_len_prefix(s, i + 1);
        assert(s.take(i + 1).drop_last() =~= s.take(i));
    } else {
        assert(s.take(i) =~= s);
    }
}

fn utf8_width_exec(c: char) -> (r: usize)
    ensures
        r == utf8_width(c),
{
    if (c as u32) < 0x80 {
        1
    } else if (c as u32) < 0x800 {
        2
    } else if (c as u32) < 0x10000 {
        3
    } else {
        4
    }
}

pub struct Lexer {
    pub client_string: String,
}

impl Lexer {
    pub fn new(input: String) -> (r: Self)
        ensures
            r.client_string@ == input@,
    {
        Lexer { client_string: input }
    }

    /// Drops the input's trailing whitespace and makes one token of each
    /// character, with its byte offset in the trimmed input.
    pub fn eat(&mut self) -> (r: Vec<Token>)
        requires
            byte_len(trim_end(old(self).client_string@)) <= usize::MAX,
        ensures
            ({
                let t = trim_end(old(self).client_string@);
                &&& final(self).client_string@ == t
                &&& r@.len() == t.len()
                &&& forall|i: int|
                    0 <= i < t.len() ==> (#[trigger] r@[i]).character == t[i] && r@[i].position
                        == byte_len(t.take(i)) && r@[i].token_type == kind_of(t[i])
            }),
    {
        let mut chars = chars_of(self.client_string.as_str());
        trim_end_chars(&mut chars);
        self.client_string = string_from_chars(&chars);
        let ghost t = chars@;
        let mut tokens: Vec<Token> = Vec::new();
        let mut position: usize = 0;
        let mut i: usize = 0;
        while i < chars.len()
            invariant
                i <= chars.len(),
                t == chars@,
                byte_len(t) <= usize::MAX,
                position == byte_len(t.take(i as int)),
                tokens@.len() == i,
                forall|k: int|
                    0 <= k < i ==> (#[trigger] tokens@[k]).character == t[k] && tokens@[k].position
                        == byte_len(t.take(k)) && tokens@[k].token_type == kind_of(t[k]),
            decreases chars.len() - i,
        {
            let c = chars[i];
            let token_type = if c == '=' {
                TokenType::Operator(OperatorType::Equal)
            } else if c == ';' {
                TokenType::SemiColon
            } else if c == ' ' {
                TokenType::WhiteSpace
            } else {
                TokenType::Misc
            };
            let tok = Token::new(c, position, token_type);
            tokens.push(tok);
            proof {
                assert(t.take(i + 1).drop_last() =~= t.take(i as int));
                lemma_byte_len_prefix(t, i + 1);
            }
            position = position + utf8_width_exec(c);
            i = i + 1;
        }
        tokens
    }

    /// Ends the word being read, if there is one, as a token.
    fn clear_buffer(&self, buff: &mut Vec<char>, preproctokens: &mut Vec<PreprocessedToken>)
        ensures
            preprocessed_view(final(preproctokens)@) == flush(
                preprocessed_view(old(preproctokens)@),
                old(buff)@,
            ),
            final(buff)@ == Seq::<char>::empty(),
    {
        if buff.len() > 0 {
            let word = string_from_chars(buff);
            let symbol = PreprocessedTokenTypes::from_string(&word);
            let ghost before = preprocessed_view(preproctokens@);
            preproctokens.push(PreprocessedToken { value: symbol });
            assert(preprocessed_view(preproctokens@) =~= before.push(classify_word(old(buff)@)));
            *buff = Vec::new();
        }
    }

    /// The words, symbols and operators of the trimmed input.
    pub fn parse(&mut self) -> (r: Vec<PreprocessedToken>)
        requires
            byte_len(trim_end(old(self).client_string@)) <= usize::MAX,
        ensures
            final(self).client_string@ == trim_end(old(self).client_string@),
            preprocessed_view(r@) == lex(trim_end(old(self).client_string@)),
    {
        let tokens = self.eat();
        let ghost t = self.client_string@;
        let mut has_eof = false;
        let mut preprocessed_tokens: Vec<PreprocessedToken> = Vec::new();
        let mut buffer: Vec<char> = Vec::new();
        let mut i: usize = 0;
        while i < tokens.len()
            invariant
                i <= tokens.len(),
                tokens@.len() == t.len(),
                forall|k: int|
                    0 <= k < t.len() ==> (#[trigger] tokens@[k]).character == t[k]
                        && tokens@[k].token_type == kind_of(t[k]),
                ({
                    let st = lex_state(t.take(i as int));
                    &&& preprocessed_view(preprocessed_tokens@) == st.done
                    &&& buffer@ == st.buffer
                    &&& has_eof == st.eof
                }),
            decreases tokens.len() - i,
        {
            let token = &tokens[i];
            let c = token.character;
            assert(t.take(i + 1).drop_last() =~= t.take(i as int));
            assert(tokens@[i as int].character == t[i as int]);
            match token.token_type {
                TokenType::WhiteSpace | TokenType::SemiColon => {
                    self.clear_buffer(&mut buffer, &mut preprocessed_tokens);
                    if c == ';' {
                        has_eof = true;
                    }
                },
                _ => {
                    if token.token_type == TokenType::Operator(OperatorType::Equal) {
                        self.clear_buffer(&mut buffer, &mut preprocessed_tokens);
                        let operator = PreprocessedTokenTypes::Operator(OperatorType::Equal);
                        preprocessed_tokens.push(PreprocessedToken { value: operator });
                    } else {
                        buffer.push(c);
                    }
                },
            }
            i = i + 1;
        }
        assert(t.take(i as int) =~= t);
        self.clear_buffer(&mut buffer, &mut preprocessed_tokens);
        let ghost flushed = preprocessed_view(preprocessed_tokens@);
        if has_eof {
            let semi_chars = vec![';'];
            assert(semi_chars@ =~= seq![';']);
            let semi = string_from_chars(&semi_chars);
            let symbol = PreprocessedTokenTypes::from_string(&semi);
            preprocessed_tokens.push(PreprocessedToken { value: symbol });
            assert(preprocessed_view(preprocessed_tokens@) =~= flushed + seq![classify_word(seq![';'])]);
        } else {
            assert(preprocessed_view(preprocessed_tokens@) =~= flushed + Seq::<PreprocessedView>::empty());
        }
        preprocessed_tokens
    }
}

} // verus!
