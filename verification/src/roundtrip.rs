use vstd::prelude::*;
use crate::error::ParseError;
use crate::object::{render, render_items, Value};
use crate::parser::{
    after, atom, is_delimiter, is_space, lex, lex_from, parse_list_spec, parse_spec, word_end,
    Lexeme, Parsed,
};
use crate::text::{decimal, digit, digit_value, integer_of, is_digits, render_int, render_nat};

verus! {

/// Whether the characters can stand inside a word: none of them is a delimiter.
pub open spec fn no_delimiter(s: Seq<char>) -> bool {
    forall|i: int| 0 <= i < s.len() ==> !is_delimiter(#[trigger] s[i])
}

/// Whether the characters are a word: at least one character and no delimiter.
pub open spec fn is_word(s: Seq<char>) -> bool {
    s.len() > 0 && no_delimiter(s)
}

/// Whether a value is one that a text can write: an integer, a symbol whose
/// name is a word that writes no integer, or a list of such values.
pub open spec fn is_plain(value: Value) -> bool
    decreases value,
{
    match value {
        Value::Integer(_) => true,
        Value::Symbol(name) => is_word(name) && integer_of(name) is None,
        Value::List(items) => forall|i: int|
            0 <= i < items.len() ==> is_plain(#[trigger] items[i]),
        _ => false,
    }
}

/// The lexemes that write a value.
pub open spec fn lexemes(value: Value) -> Seq<Lexeme>
    decreases value,
{
    match value {
        Value::Integer(i) => seq![Lexeme::Integer(i)],
        Value::Symbol(name) => seq![Lexeme::Symbol(name)],
        Value::List(items) => seq![Lexeme::LParen] + lexemes_each(items) + seq![Lexeme::RParen],
        _ => Seq::empty(),
    }
}

/// The lexemes that write the values one after another.
pub open spec fn lexemes_each(items: Seq<Value>) -> Seq<Lexeme>
    decreases items,
{
    if items.len() == 0 {
        Seq::empty()
    } else {
        lexemes_each(items.drop_last()) + lexemes(items.last())
    }
}

/// Whether a text can follow a word: it is empty or begins with a delimiter.
pub open spec fn ends_word(tail: Seq<char>) -> bool {
    tail.len() == 0 || is_delimiter(tail[0])
}

/// The decimal digits of a number are digits, and write that number.
pub proof fn lemma_render_nat(n: nat)
    ensures
        render_nat(n).len() > 0,
        is_digits(render_nat(n)),
        decimal(render_nat(n)) == n,
    decreases n,
{
    if n >= 10 {
        lemma_render_nat(n / 10);
        let text = render_nat(n);
        assert(text.drop_last() =~= render_nat(n / 10));
        assert(text.last() == digit((n % 10) as int));
        assert forall|i: int| 0 <= i < text.len() implies (#[trigger] digit_value(
            text[i],
        )) is Some by {
            if i < text.len() - 1 {
                assert(text[i] == render_nat(n / 10)[i]);
            }
        }
    } else {
        let text = render_nat(n);
        assert(text.drop_last() =~= Seq::<char>::empty());
        assert(decimal(text.drop_last()) == 0);
    }
}

/// The text of an integer is a word, and the word writes that integer.
pub proof fn lemma_render_int(i: i64)
    ensures
        is_word(render_int(i as int)),
        integer_of(render_int(i as int)) == Some(i),
{
    let word = render_int(i as int);
    if i < 0 {
        let size = (-i) as nat;
        lemma_render_nat(size);
        assert(word.drop_first() =~= render_nat(size));
        assert forall|k: int| 0 <= k < word.len() implies !is_delimiter(#[trigger] word[k]) by {
            if k > 0 {
                assert(word[k] == render_nat(size)[k - 1]);
                assert(digit_value(render_nat(size)[k - 1]) is Some);
            }
        }
    } else {
        lemma_render_nat(i as nat);
        assert(digit_value(word[0]) is Some);
        assert forall|k: int| 0 <= k < word.len() implies !is_delimiter(#[trigger] word[k]) by {
            assert(digit_value(word[k]) is Some);
        }
    }
}

/// The characters of a word go to the word that is being read.
pub proof fn lemma_lex_word(begun: Seq<char>, word: Seq<char>, tail: Seq<char>)
    requires
        no_delimiter(word),
    ensures
        lex_from(begun, word + tail) == lex_from(begun + word, tail),
    decreases word.len(),
{
    if word.len() == 0 {
        assert(word + tail =~= tail);
        assert(begun + word =~= begun);
    } else {
        let text = word + tail;
        assert(text[0] == word[0]);
        assert(!is_delimiter(word[0]));
        assert(text.drop_first() =~= word.drop_first() + tail);
        assert forall|i: int| 0 <= i < word.drop_first().len() implies !is_delimiter(
            #[trigger] word.drop_first()[i],
        ) by {
            assert(word.drop_first()[i] == word[i + 1]);
        }
        lemma_lex_word(begun.push(word[0]), word.drop_first(), tail);
        assert(begun.push(word[0]) + word.drop_first() =~= begun + word);
    }
}

/// A word before the end of the text or before a delimiter is one lexeme.
pub proof fn lemma_lex_atom(word: Seq<char>, tail: Seq<char>)
    requires
        is_word(word),
        ends_word(tail),
    ensures
        lex(word + tail) == seq![atom(word)] + lex(tail),
{
    lemma_lex_word(Seq::empty(), word, tail);
    assert(Seq::<char>::empty() + word =~= word);
    assert(word_end(Seq::<char>::empty()) =~= Seq::<Lexeme>::empty());
    if tail.len() == 0 {
        assert(lex(word + tail) =~= seq![atom(word)] + lex(tail));
    } else {
        let more = lex_from(Seq::empty(), tail.drop_first());
        if tail[0] == '(' {
            assert(lex(tail) =~= seq![Lexeme::LParen] + more);
            assert(lex(word + tail) =~= seq![atom(word)] + lex(tail));
        } else if tail[0] == ')' {
            assert(lex(tail) =~= seq![Lexeme::RParen] + more);
            assert(lex(word + tail) =~= seq![atom(word)] + lex(tail));
        } else {
            assert(lex(tail) =~= more);
            assert(lex(word + tail) =~= seq![atom(word)] + lex(tail));
        }
    }
}

/// The text of a plain value, before the end of the text or before a
/// delimiter, is read as the lexemes that write the value.
pub proof fn lemma_lex_value(value: Value, tail: Seq<char>)
    requires
        is_plain(value),
        ends_word(tail),
    ensures
        lex(render(value) + tail) == lexemes(value) + lex(tail),
    decreases value, 1nat,
{
    match value {
        Value::Integer(i) => {
            lemma_render_int(i);
            lemma_lex_atom(render_int(i as int), tail);
        },
        Value::Symbol(name) => {
            lemma_lex_atom(name, tail);
        },
        Value::List(items) => {
            let close = seq![')'] + tail;
            let inside = render_items(items) + close;
            let text = render(value) + tail;
            assert(text =~= seq!['('] + inside);
            assert(text[0] == '(');
            assert(text.drop_first() =~= inside);
            assert(word_end(Seq::<char>::empty()) =~= Seq::<Lexeme>::empty());
            assert(lex(text) =~= seq![Lexeme::LParen] + lex(inside));
            assert(close[0] == ')');
            lemma_lex_values(items, close);
            assert(close.drop_first() =~= tail);
            assert(lex(close) =~= seq![Lexeme::RParen] + lex(tail));
            assert(lex(text) =~= lexemes(value) + lex(tail));
        },
        _ => {},
    }
}

/// The texts of plain values with a space between each two, before the end
/// of the text or before a delimiter, are read as the lexemes that write the
/// values.
pub proof fn lemma_lex_values(items: Seq<Value>, tail: Seq<char>)
    requires
        forall|i: int| 0 <= i < items.len() ==> is_plain(#[trigger] items[i]),
        ends_word(tail),
    ensures
        lex(render_items(items) + tail) == lexemes_each(items) + lex(tail),
    decreases items, 0nat,
{
    if items.len() == 0 {
        assert(render_items(items) + tail =~= tail);
        assert(lexemes_each(items) + lex(tail) =~= lex(tail));
    } else if items.len() == 1 {
        assert(is_plain(items[0]));
        lemma_lex_value(items[0], tail);
        assert(lexemes_each(items.drop_last()) =~= Seq::<Lexeme>::empty());
        assert(lexemes_each(items) =~= lexemes(items[0]));
    } else {
        let first = items.drop_last();
        let last = items.last();
        assert(is_plain(items[items.len() - 1]));
        assert forall|i: int| 0 <= i < first.len() implies is_plain(#[trigger] first[i]) by {
            assert(first[i] == items[i]);
        }
        let spaced = seq![' '] + (render(last) + tail);
        assert(render_items(items) + tail =~= render_items(first) + spaced);
        assert(spaced[0] == ' ');
        assert(is_space(' '));
        lemma_lex_values(first, spaced);
        assert(spaced.drop_first() =~= render(last) + tail);
        assert(word_end(Seq::<char>::empty()) =~= Seq::<Lexeme>::empty());
        assert(lex(spaced) =~= lex(render(last) + tail));
        lemma_lex_value(last, tail);
        assert(lexemes_each(first) + (lexemes(last) + lex(tail)) =~= lexemes_each(items) + lex(
            tail,
        ));
    }
}

/// The lexemes that write a plain value are read as that value, and reading
/// goes on behind them.
pub proof fn lemma_parse_value(value: Value, more: Seq<Lexeme>)
    requires
        is_plain(value),
    ensures
        parse_list_spec(lexemes(value) + more) == after(value, parse_list_spec(more)),
    decreases value, 1nat,
{
    let all = lexemes(value) + more;
    match value {
        Value::Integer(i) => {
            assert(all[0] == Lexeme::Integer(i));
            assert(all.drop_first() =~= more);
        },
        Value::Symbol(name) => {
            assert(all[0] == Lexeme::Symbol(name));
            assert(all.drop_first() =~= more);
        },
        Value::List(items) => {
            let close = seq![Lexeme::RParen] + more;
            assert(all[0] == Lexeme::LParen);
            assert(all.drop_first() =~= lexemes_each(items) + close);
            lemma_parse_values(items, close);
            assert(close[0] == Lexeme::RParen);
            assert(close.drop_first() =~= more);
            assert(parse_list_spec(close) == Parsed { items: Seq::empty(), rest: more });
            assert(items + Seq::<Value>::empty() =~= items);
            assert(parse_list_spec(all.drop_first()) == Parsed { items, rest: more });
        },
        _ => {},
    }
}

/// The lexemes that write plain values are read as those values, and reading
/// goes on behind them.
pub proof fn lemma_parse_values(items: Seq<Value>, more: Seq<Lexeme>)
    requires
        forall|i: int| 0 <= i < items.len() ==> is_plain(#[trigger] items[i]),
    ensures
        parse_list_spec(lexemes_each(items) + more) == (Parsed {
            items: items + parse_list_spec(more).items,
            rest: parse_list_spec(more).rest,
        }),
    decreases items, 0nat,
{
    if items.len() == 0 {
        assert(lexemes_each(items) + more =~= more);
        assert(items + parse_list_spec(more).items =~= parse_list_spec(more).items);
    } else {
        let first = items.drop_last();
        let last = items.last();
        assert(is_plain(items[items.len() - 1]));
        assert forall|i: int| 0 <= i < first.len() implies is_plain(#[trigger] first[i]) by {
            assert(first[i] == items[i]);
        }
        assert(lexemes_each(items) + more =~= lexemes_each(first) + (lexemes(last) + more));
        lemma_parse_values(first, lexemes(last) + more);
        lemma_parse_value(last, more);
        assert(first + (seq![last] + parse_list_spec(more).items) =~= items + parse_list_spec(
            more,
        ).items);
    }
}

/// Parsing the text of a list of plain values gives the list back: of
/// integers, of symbols whose names are words that write no integer, and of
/// lists of such values.
pub proof fn law_render_then_parse(items: Seq<Value>)
    requires
        forall|i: int| 0 <= i < items.len() ==> is_plain(#[trigger] items[i]),
    ensures
        parse_spec(render(Value::List(items))) == Ok::<Value, ParseError>(Value::List(items)),
{
    let list = Value::List(items);
    let text = render(list);
    let nothing = Seq::<char>::empty();
    lemma_lex_value(list, nothing);
    assert(text + nothing =~= text);
    assert(lex(nothing) =~= Seq::<Lexeme>::empty());
    let close = seq![Lexeme::RParen];
    assert(lex(text) =~= seq![Lexeme::LParen] + (lexemes_each(items) + close));
    assert(lex(text)[0] == Lexeme::LParen);
    assert(lex(text).drop_first() =~= lexemes_each(items) + close);
    lemma_parse_values(items, close);
    assert(close.drop_first() =~= Seq::<Lexeme>::empty());
    assert(parse_list_spec(close).items =~= Seq::<Value>::empty());
    assert(items + parse_list_spec(close).items =~= items);
}

} // verus!
