use vstd::prelude::*;
use crate::error::ParseError;
use crate::object::{values_of, Object, Value};
use crate::text::{integer_of, parse_integer, string_of};

verus! {

/// The mathematical content of a [`Token`].
pub enum Lexeme {
    Integer(i64),
    Symbol(Seq<char>),
    LParen,
    RParen,
}

/// A piece of program text: a parenthesis, or a word that is an integer
/// where it writes one and a symbol where it does not.
#[derive(Debug, PartialEq, Eq)]
pub enum Token {
    Integer(i64),
    Symbol(String),
    LParen,
    RParen,
}

impl View for Token {
    type V = Lexeme;

    open spec fn view(&self) -> Lexeme {
        match self {
            Token::Integer(i) => Lexeme::Integer(*i),
            Token::Symbol(name) => Lexeme::Symbol(name@),
            Token::LParen => Lexeme::LParen,
            Token::RParen => Lexeme::RParen,
        }
    }
}

/// The lexemes of a sequence of tokens, in order.
pub open spec fn lexemes_of(tokens: Seq<Token>) -> Seq<Lexeme> {
    Seq::new(tokens.len(), |i: int| tokens[i]@)
}

/// Whether the character is white space: one of the characters to which
/// Unicode gives that property.
pub open spec fn is_space(c: char) -> bool {
    let code = c as u32;
    (0x09 <= code <= 0x0d) || code == 0x20 || code == 0x85 || code == 0xa0 || code == 0x1680 || (
    0x2000 <= code <= 0x200a) || code == 0x2028 || code == 0x2029 || code == 0x202f || code
        == 0x205f || code == 0x3000
}

/// Whether the character ends a word: white space or a parenthesis.
pub open spec fn is_delimiter(c: char) -> bool {
    is_space(c) || c == '(' || c == ')'
}

/// The lexeme that a word is.
pub open spec fn atom(word: Seq<char>) -> Lexeme {
    match integer_of(word) {
        Some(i) => Lexeme::Integer(i),
        None => Lexeme::Symbol(word),
    }
}

/// The lexeme of the word read so far, if any character of one was read.
pub open spec fn word_end(word: Seq<char>) -> Seq<Lexeme> {
    if word.len() == 0 {
        Seq::empty()
    } else {
        seq![atom(word)]
    }
}

/// The lexemes of a text of which a word has been begun: the word goes on to
/// the next delimiter, and a parenthesis is a lexeme of its own.
pub open spec fn lex_from(word: Seq<char>, text: Seq<char>) -> Seq<Lexeme>
    decreases text.len(),
{
    if text.len() == 0 {
        word_end(word)
    } else if text[0] == '(' {
        word_end(word) + seq![Lexeme::LParen] + lex_from(Seq::empty(), text.drop_first())
    } else if text[0] == ')' {
        word_end(word) + seq![Lexeme::RParen] + lex_from(Seq::empty(), text.drop_first())
    } else if is_space(text[0]) {
        word_end(word) + lex_from(Seq::empty(), text.drop_first())
    } else {
        lex_from(word.push(text[0]), text.drop_first())
    }
}

/// The lexemes of a text.
pub open spec fn lex(text: Seq<char>) -> Seq<Lexeme> {
    lex_from(Seq::empty(), text)
}

/// The items of a list and the lexemes that follow the list.
pub struct Parsed {
    pub items: Seq<Value>,
    pub rest: Seq<Lexeme>,
}

/// The items with one more in front.
pub open spec fn after(first: Value, parsed: Parsed) -> Parsed {
    Parsed { items: seq![first] + parsed.items, rest: parsed.rest }
}

/// The list whose opening parenthesis has been read: its items go up to the
/// parenthesis that closes it, or to the end of the lexemes where none does.
pub open spec fn parse_list_spec(lexemes: Seq<Lexeme>) -> Parsed
    decreases lexemes.len(),
{
    if lexemes.len() == 0 {
        Parsed { items: Seq::empty(), rest: Seq::empty() }
    } else {
        match lexemes[0] {
            Lexeme::Integer(i) => after(Value::Integer(i), parse_list_spec(lexemes.drop_first())),
            Lexeme::Symbol(name) => after(
                Value::Symbol(name),
                parse_list_spec(lexemes.drop_first()),
            ),
            Lexeme::LParen => {
                let inner = parse_list_spec(lexemes.drop_first());
                if inner.rest.len() < lexemes.len() {
                    after(Value::List(inner.items), parse_list_spec(inner.rest))
                } else {
                    inner
                }
            },
            Lexeme::RParen => Parsed { items: Seq::empty(), rest: lexemes.drop_first() },
        }
    }
}

/// The program that a text is: the list that follows its first lexeme, which
/// must be an opening parenthesis. What follows the list is not looked at.
pub open spec fn parse_spec(text: Seq<char>) -> Result<Value, ParseError> {
    let lexemes = lex(text);
    if lexemes.len() > 0 && lexemes[0] == Lexeme::LParen {
        Ok(Value::List(parse_list_spec(lexemes.drop_first()).items))
    } else {
        Err(ParseError::ExpectedOpenParen)
    }
}

/// What follows a list is an end of the lexemes that the list began in.
pub proof fn lemma_parse_rest(lexemes: Seq<Lexeme>)
    ensures
        parse_list_spec(lexemes).rest.len() <= lexemes.len(),
        parse_list_spec(lexemes).rest == lexemes.skip(
            lexemes.len() - parse_list_spec(lexemes).rest.len(),
        ),
    decreases lexemes.len(),
{
    if lexemes.len() == 0 {
        assert(lexemes.skip(0) =~= Seq::<Lexeme>::empty());
    } else {
        let tail = lexemes.drop_first();
        lemma_parse_rest(tail);
        match lexemes[0] {
            Lexeme::LParen => {
                let inner = parse_list_spec(tail);
                lemma_parse_rest(inner.rest);
                let last = parse_list_spec(inner.rest).rest;
                assert(last =~= lexemes.skip(lexemes.len() - last.len()));
            },
            Lexeme::RParen => {
                assert(tail =~= lexemes.skip(1));
            },
            _ => {
                let last = parse_list_spec(tail).rest;
                assert(last =~= lexemes.skip(lexemes.len() - last.len()));
            },
        }
    }
}

fn is_whitespace(c: char) -> (space: bool)
    ensures
        space == is_space(c),
{
    let code = c as u32;
    (0x09 <= code && code <= 0x0d) || code == 0x20 || code == 0x85 || code == 0xa0 || code
        == 0x1680 || (0x2000 <= code && code <= 0x200a) || code == 0x2028 || code == 0x2029
        || code == 0x202f || code == 0x205f || code == 0x3000
}

/// Ends the word read so far, where there is one, as a token.
fn end_word(word: &mut Vec<char>, tokens: &mut Vec<Token>)
    ensures
        final(word)@ == Seq::<char>::empty(),
        lexemes_of(final(tokens)@) == lexemes_of(old(tokens)@) + word_end(old(word)@),
{
    if word.len() > 0 {
        let token = match parse_integer(word) {
            Some(i) => Token::Integer(i),
            None => Token::Symbol(string_of(word)),
        };
        tokens.push(token);
        word.clear();
        assert(lexemes_of(final(tokens)@) =~= lexemes_of(old(tokens)@) + word_end(old(word)@));
    } else {
        assert(lexemes_of(final(tokens)@) =~= lexemes_of(old(tokens)@) + word_end(old(word)@));
    }
}

/// The tokens of a text.
pub fn scan(input: &str) -> (tokens: Vec<Token>)
    ensures
        lexemes_of(tokens@) == lex(input@),
{
    let mut tokens: Vec<Token> = Vec::new();
    let mut word: Vec<char> = Vec::new();
    assert(lexemes_of(tokens@) =~= Seq::<Lexeme>::empty());
    assert(input@.skip(0) =~= input@);
    for c in it: input.chars()
        invariant
            it.seq() == input@,
            lexemes_of(tokens@) + lex_from(word@, input@.skip(it.index() as int)) == lex(input@),
    {
        let ghost before = lexemes_of(tokens@);
        let ghost begun = word@;
        let ghost text = input@.skip(it.index() as int);
        let ghost tail = lex_from(Seq::empty(), text.drop_first());
        proof {
            assert(text[0] == c);
            assert(text.drop_first() =~= input@.skip(it.index() + 1));
        }
        if c == '(' {
            end_word(&mut word, &mut tokens);
            tokens.push(Token::LParen);
            assert(lexemes_of(tokens@) =~= before + word_end(begun) + seq![Lexeme::LParen]);
            assert(lexemes_of(tokens@) + tail =~= before + (word_end(begun) + seq![Lexeme::LParen]
                + tail));
        } else if c == ')' {
            end_word(&mut word, &mut tokens);
            tokens.push(Token::RParen);
            assert(lexemes_of(tokens@) =~= before + word_end(begun) + seq![Lexeme::RParen]);
            assert(lexemes_of(tokens@) + tail =~= before + (word_end(begun) + seq![Lexeme::RParen]
                + tail));
        } else if is_whitespace(c) {
            end_word(&mut word, &mut tokens);
            assert(lexemes_of(tokens@) + tail =~= before + (word_end(begun) + tail));
        } else {
            word.push(c);
        }
    }
    end_word(&mut word, &mut tokens);
    tokens
}

/// Reads the items of a list from the token at `start` on. Gives the list and
/// the place of the token that follows it.
pub fn parse_list(tokens: &Vec<Token>, start: usize) -> (parsed: (Object, usize))
    requires
        start <= tokens.len(),
    ensures
        start <= parsed.1 <= tokens.len(),
        parsed.0@ == Value::List(parse_list_spec(lexemes_of(tokens@).skip(start as int)).items),
        lexemes_of(tokens@).skip(parsed.1 as int) == parse_list_spec(
            lexemes_of(tokens@).skip(start as int),
        ).rest,
    decreases tokens.len() - start,
{
    let ghost all = lexemes_of(tokens@);
    let ghost goal = parse_list_spec(all.skip(start as int));
    let mut items: Vec<Object> = Vec::new();
    assert(values_of(items@) =~= Seq::<Value>::empty());
    let mut at: usize = start;
    while at < tokens.len()
        invariant
            start <= at <= tokens.len(),
            all == lexemes_of(tokens@),
            goal == parse_list_spec(all.skip(start as int)),
            values_of(items@) + parse_list_spec(all.skip(at as int)).items == goal.items,
            parse_list_spec(all.skip(at as int)).rest == goal.rest,
        decreases tokens.len() - at,
    {
        let ghost here = all.skip(at as int);
        let ghost before = values_of(items@);
        proof {
            assert(here[0] == tokens[at as int]@);
            assert(here.drop_first() =~= all.skip(at + 1));
        }
        match &tokens[at] {
            Token::Integer(i) => {
                items.push(Object::Integer(*i));
                assert(values_of(items@) =~= before + seq![Value::Integer(*i)]);
                at += 1;
            },
            Token::Symbol(name) => {
                items.push(Object::Symbol(name.clone()));
                assert(values_of(items@) =~= before + seq![Value::Symbol(name@)]);
                at += 1;
            },
            Token::LParen => {
                let (inner, next) = parse_list(tokens, at + 1);
                proof {
                    assert(all.skip(next as int).len() < here.len());
                }
                items.push(inner);
                assert(values_of(items@) =~= before + seq![inner@]);
                at = next;
            },
            Token::RParen => {
                assert(values_of(items@) =~= goal.items);
                assert(all.skip(at + 1) =~= goal.rest);
                return (Object::List(items), at + 1);
            },
        }
        assert(values_of(items@) + parse_list_spec(all.skip(at as int)).items =~= goal.items);
    }
    assert(values_of(items@) =~= goal.items);
    assert(all.skip(at as int) =~= goal.rest);
    (Object::List(items), at)
}

/// Reads a program: a text that begins with an opening parenthesis.
pub fn parse(string: &str) -> (result: Result<Object, ParseError>)
    ensures
        match result {
            Ok(object) => parse_spec(string@) == Ok::<Value, ParseError>(object@),
            Err(error) => parse_spec(string@) == Err::<Value, ParseError>(error),
        },
{
    let tokens = scan(string);
    if tokens.len() > 0 {
        if let Token::LParen = &tokens[0] {
            assert(lexemes_of(tokens@)[0] == tokens[0]@);
            assert(lexemes_of(tokens@).drop_first() =~= lexemes_of(tokens@).skip(1));
            let (list, _) = parse_list(&tokens, 1);
            return Ok(list);
        }
        assert(lexemes_of(tokens@)[0] == tokens[0]@);
    }
    Err(ParseError::ExpectedOpenParen)
}

} // verus!
