//! The tokenizer: a cursor over the characters of a text that hands out one
//! token at a time and remembers the last one.
//!
//! Space, carriage return and newline part tokens and are passed over. A
//! number is a run of digits and a name a run of ASCII letters; the four
//! operators, the two parentheses and the comma are tokens by themselves.
//! Every other character is an error, the decimal point among them: a number
//! with a fraction is not part of the language.

use vstd::prelude::*;
use vstd::string::axiom_spec_iter;
use crate::error::Error;
use crate::token::{Class, Item, Operator, Token};

verus! {

/// Where the run of `class` that begins at `from` ends: the first position
/// from there on that holds no character of the class, or the length of
/// `source`.
pub open spec fn span(source: Seq<char>, from: int, class: Class) -> int
    decreases source.len() - from,
{
    if 0 <= from < source.len() && class.has(source[from]) {
        span(source, from + 1, class)
    } else {
        from
    }
}

/// The token that a character is by itself, if it is one.
pub open spec fn single(c: char) -> Option<Token> {
    if c == '+' {
        Some(Token::Operator(Operator::Add))
    } else if c == '-' {
        Some(Token::Operator(Operator::Sub))
    } else if c == '*' {
        Some(Token::Operator(Operator::Mul))
    } else if c == '/' {
        Some(Token::Operator(Operator::Div))
    } else if c == ',' {
        Some(Token::Comma)
    } else if c == '(' {
        Some(Token::Lparent)
    } else if c == ')' {
        Some(Token::Rparent)
    } else {
        None
    }
}

/// The state of a tokenizer: the text, how far it has been read, and the
/// token read last.
pub struct Cursor {
    pub source: Seq<char>,
    pub index: int,
    pub cache: Option<Token>,
}

impl Cursor {
    /// The position lies within the text, and the token read last is well
    /// formed.
    pub open spec fn valid(self) -> bool {
        &&& 0 <= self.index <= self.source.len()
        &&& self.cache matches Some(token) ==> token.well_formed()
    }

    /// The character on which the tokenizer stopped because it begins no
    /// token. No token is remembered then, and text is left.
    pub open spec fn fault(self) -> Option<Error> {
        if self.cache is None && 0 <= self.index < self.source.len() {
            Some(Error::Lex(self.source[self.index]))
        } else {
            None
        }
    }

    /// How much is left to read, the remembered token counted as one
    /// character: every step of the tokenizer from a remembered token makes
    /// this smaller.
    pub open spec fn rest(self) -> nat {
        (self.source.len() - self.index + if self.cache is Some { 1int } else { 0int }) as nat
    }
}

/// The state in which the tokenizer is after it has read on from position
/// `from` of `source`. Blanks are passed over. Then a run of letters is a
/// name, a run of digits a number, and an operator, a parenthesis or a comma
/// a token by itself; at the end of the text no token is remembered. At any
/// other character the tokenizer stops where it is, and remembers none.
pub open spec fn scan(source: Seq<char>, from: int) -> Cursor {
    let at = span(source, from, Class::Blank);
    if !(0 <= at < source.len()) {
        Cursor { source, index: at, cache: None }
    } else if Class::Letter.has(source[at]) {
        let end = span(source, at, Class::Letter);
        Cursor { source, index: end, cache: Some(Token::Ident(source.subrange(at, end))) }
    } else if Class::Digit.has(source[at]) {
        let end = span(source, at, Class::Digit);
        Cursor { source, index: end, cache: Some(Token::Number(source.subrange(at, end))) }
    } else if single(source[at]) is Some {
        Cursor { source, index: at + 1, cache: single(source[at]) }
    } else {
        Cursor { source, index: at, cache: None }
    }
}

/// The token that `item` stands for, if there is one.
pub open spec fn seen(item: Option<Item>) -> Option<Token> {
    match item {
        Some(item) => Some(item@),
        None => None,
    }
}

/// A run ends no earlier than it begins and no later than the text, every
/// character in it is of the class, and the character behind it is not.
pub proof fn lemma_span(source: Seq<char>, from: int, class: Class)
    requires
        0 <= from <= source.len(),
    ensures
        from <= span(source, from, class) <= source.len(),
        forall|i: int| from <= i < span(source, from, class) ==> class.has(#[trigger] source[i]),
        span(source, from, class) < source.len() ==> !class.has(
            source[span(source, from, class)],
        ),
    decreases source.len() - from,
{
    if from < source.len() && class.has(source[from]) {
        lemma_span(source, from + 1, class);
    }
}

/// A stretch of characters of the class, with none of the class behind it,
/// is a run.
pub proof fn lemma_span_to(source: Seq<char>, from: int, end: int, class: Class)
    requires
        0 <= from <= end <= source.len(),
        forall|i: int| from <= i < end ==> class.has(#[trigger] source[i]),
        end < source.len() ==> !class.has(source[end]),
    ensures
        span(source, from, class) == end,
    decreases end - from,
{
    if from < end {
        lemma_span_to(source, from + 1, end, class);
    }
}

/// A run that is entered later ends where the whole run ends.
pub proof fn lemma_span_within(source: Seq<char>, from: int, at: int, class: Class)
    requires
        0 <= from <= at <= span(source, from, class),
        from <= source.len(),
    ensures
        span(source, at, class) == span(source, from, class),
    decreases at - from,
{
    lemma_span(source, from, class);
    if from < at {
        lemma_span_within(source, from + 1, at, class);
    }
}

/// Reading on keeps the state valid, and from a remembered token it leaves
/// less to read.
pub proof fn lemma_scan(cursor: Cursor)
    requires
        cursor.valid(),
    ensures
        scan(cursor.source, cursor.index).valid(),
        scan(cursor.source, cursor.index).source == cursor.source,
        scan(cursor.source, cursor.index).index >= cursor.index,
        scan(cursor.source, cursor.index).rest() <= cursor.rest(),
        cursor.cache is Some ==> scan(cursor.source, cursor.index).rest() < cursor.rest(),
{
    let source = cursor.source;
    let at = span(source, cursor.index, Class::Blank);
    lemma_span(source, cursor.index, Class::Blank);
    if at < source.len() {
        lemma_span(source, at, Class::Letter);
        lemma_span(source, at, Class::Digit);
    }
}

/// Where the tokenizer stops without a token. It stops at the end of the
/// text, when nothing or only blanks were left. It stops with an error at
/// the first character behind the blanks that is neither a letter nor a digit
/// nor a token by itself, and reading on from there stops there again with
/// the same error.
pub proof fn lemma_scan_stops(source: Seq<char>, from: int)
    requires
        0 <= from <= source.len(),
    ensures
        ({
            let stop = scan(source, from);
            let at = span(source, from, Class::Blank);
            &&& stop.cache is None ==> stop.index == at
            &&& stop.cache is None && stop.fault() is None <==> at == source.len()
            &&& stop.fault() is Some <==> at < source.len() && !Class::Letter.has(source[at])
                && !Class::Digit.has(source[at]) && single(source[at]) is None
            &&& stop.fault() is Some ==> stop.fault() == Some(Error::Lex(source[at])) && scan(
                source,
                stop.index,
            ) == stop
        }),
{
    let at = span(source, from, Class::Blank);
    lemma_span(source, from, Class::Blank);
    lemma_span_within(source, from, at, Class::Blank);
    if at < source.len() {
        lemma_span(source, at, Class::Letter);
        lemma_span(source, at, Class::Digit);
    }
}

/// A tokenizer over the characters of a text.
pub struct Lexer {
    source: Vec<char>,
    index: usize,
    cache: Option<Item>,
}

impl View for Lexer {
    type V = Cursor;

    closed spec fn view(&self) -> Cursor {
        Cursor { source: self.source@, index: self.index as int, cache: seen(self.cache) }
    }
}

/// `String::push` of std puts the character at the end of the string and
/// leaves what was there as it was.
pub assume_specification[ String::push ](text: &mut String, c: char)
    ensures
        final(text)@ == old(text)@.push(c),
;

impl Lexer {
    #[verifier::type_invariant]
    closed spec fn inv(self) -> bool {
        self@.valid()
    }

    /// A tokenizer over `text` that has read its first token.
    pub fn new<'a>(text: &'a str) -> (lexer: Self)
        ensures
            lexer@ == scan(text@, 0),
            lexer@.valid(),
    {
        broadcast use axiom_spec_iter;

        let mut source: Vec<char> = Vec::new();
        for c in it: text.chars()
            invariant
                it.seq() == text@,
                source@ == text@.take(it.index()),
        {
            source.push(c);
            assert(source@ == text@.take(it.index() + 1));
        }
        assert(source@ == text@);
        let mut lexer = Lexer { source: source, index: 0, cache: None };
        let _ = lexer.next();
        proof {
            use_type_invariant(&lexer);
        }
        lexer
    }

    /// The character at the cursor.
    #[inline(always)]
    fn now(&self) -> (c: char)
        requires
            self.index < self.source.len(),
        ensures
            c == self.source@[self.index as int],
    {
        self.source[self.index]
    }

    /// Whether the text has been read to its end.
    #[inline(always)]
    fn end(&self) -> (done: bool)
        ensures
            done == (self.index >= self.source.len()),
    {
        self.index >= self.source.len()
    }

    /// Moves the cursor past one character.
    #[inline(always)]
    fn inc(&mut self)
        requires
            old(self).index < old(self).source.len(),
        ensures
            final(self).index == old(self).index + 1,
            final(self).source == old(self).source,
            final(self).cache == old(self).cache,
    {
        proof {
            use_type_invariant(&*self);
        }
        self.index += 1;
    }

    /// Reads the run of digits that begins here.
    #[inline(always)]
    fn number(&mut self) -> (item: Item)
        requires
            old(self).index < old(self).source.len(),
            Class::Digit.has(old(self).source@[old(self).index as int]),
        ensures
            final(self).index == span(old(self).source@, old(self).index as int, Class::Digit),
            final(self).source == old(self).source,
            final(self).cache == old(self).cache,
            item@ == Token::Number(
                old(self).source@.subrange(old(self).index as int, final(self).index as int),
            ),
    {
        let ghost start = self.index as int;
        let mut result = String::new();
        result.push(self.now());
        self.inc();

        while !self.end()
            invariant
                self.source == old(self).source,
                self.cache == old(self).cache,
                0 <= start < self.index <= self.source.len(),
                span(self.source@, self.index as int, Class::Digit) == span(
                    self.source@,
                    start,
                    Class::Digit,
                ),
                result@ == self.source@.subrange(start, self.index as int),
            ensures
                self.index == span(self.source@, start, Class::Digit),
            decreases self.source.len() - self.index,
        {
            let ch = self.now();
            match ch {
                '0'..='9' => result.push(ch),
                _ => break,
            }
            self.inc();
            assert(result@ == self.source@.subrange(start, self.index as int));
        }

        Item::Number(result)
    }

    /// Passes over the blanks that begin here, then reads the next token.
    #[inline(always)]
    fn blank(&mut self) -> (result: Result<Option<Item>, Error>)
        requires
            old(self).index < old(self).source.len(),
            Class::Blank.has(old(self).source@[old(self).index as int]),
        ensures
            final(self)@ == scan(old(self)@.source, old(self)@.index),
            match result {
                Ok(item) => final(self)@.fault() is None && seen(item) == final(self)@.cache,
                Err(error) => final(self)@.fault() == Some(error),
            },
        decreases old(self)@.source.len() - old(self)@.index, 0nat,
    {
        let ghost start = self.index as int;
        self.inc();
        while !self.end()
            invariant
                self.source == old(self).source,
                0 <= start < self.index <= self.source.len(),
                span(self.source@, self.index as int, Class::Blank) == span(
                    self.source@,
                    start,
                    Class::Blank,
                ),
            ensures
                self.index == span(self.source@, start, Class::Blank),
            decreases self.source.len() - self.index,
        {
            match self.now() {
                ' ' | '\r' | '\n' => {
                    self.inc();
                },
                _ => break,
            }
        }
        proof {
            lemma_span_within(self.source@, start, self.index as int, Class::Blank);
        }
        self.next()
    }

    /// Reads the `+` at the cursor.
    #[inline(always)]
    fn add(&mut self) -> (item: Item)
        requires
            old(self).index < old(self).source.len(),
        ensures
            final(self).index == old(self).index + 1,
            final(self).source == old(self).source,
            final(self).cache == old(self).cache,
            item@ == Token::Operator(Operator::Add),
    {
        self.inc();
        Item::Operator(Operator::Add)
    }

    /// Reads the `-` at the cursor.
    #[inline(always)]
    fn sub(&mut self) -> (item: Item)
        requires
            old(self).index < old(self).source.len(),
        ensures
            final(self).index == old(self).index + 1,
            final(self).source == old(self).source,
            final(self).cache == old(self).cache,
            item@ == Token::Operator(Operator::Sub),
    {
        self.inc();
        Item::Operator(Operator::Sub)
    }

    /// Reads the `*` at the cursor.
    #[inline(always)]
    fn mul(&mut self) -> (item: Item)
        requires
            old(self).index < old(self).source.len(),
        ensures
            final(self).index == old(self).index + 1,
            final(self).source == old(self).source,
            final(self).cache == old(self).cache,
            item@ == Token::Operator(Operator::Mul),
    {
        self.inc();
        Item::Operator(Operator::Mul)
    }

    /// Reads the `/` at the cursor.
    #[inline(always)]
    fn div(&mut self) -> (item: Item)
        requires
            old(self).index < old(self).source.len(),
        ensures
            final(self).index == old(self).index + 1,
            final(self).source == old(self).source,
            final(self).cache == old(self).cache,
            item@ == Token::Operator(Operator::Div),
    {
        self.inc();
        Item::Operator(Operator::Div)
    }

    /// Reads the comma at the cursor.
    #[inline(always)]
    fn comma(&mut self) -> (item: Item)
        requires
            old(self).index < old(self).source.len(),
        ensures
            final(self).index == old(self).index + 1,
            final(self).source == old(self).source,
            final(self).cache == old(self).cache,
            item@ == Token::Comma,
    {
        self.inc();
        Item::Comma
    }

    /// Reads the left parenthesis at the cursor.
    #[inline(always)]
    fn lparent(&mut self) -> (item: Item)
        requires
            old(self).index < old(self).source.len(),
        ensures
            final(self).index == old(self).index + 1,
            final(self).source == old(self).source,
            final(self).cache == old(self).cache,
            item@ == Token::Lparent,
    {
        self.inc();
        Item::Lparent
    }

    /// Reads the right parenthesis at the cursor.
    #[inline(always)]
    fn rparent(&mut self) -> (item: Item)
        requires
            old(self).index < old(self).source.len(),
        ensures
            final(self).index == old(self).index + 1,
            final(self).source == old(self).source,
            final(self).cache == old(self).cache,
            item@ == Token::Rparent,
    {
        self.inc();
        Item::Rparent
    }

    /// Reads the run of letters that begins here.
    #[inline(always)]
    fn ident(&mut self) -> (item: Item)
        requires
            old(self).index < old(self).source.len(),
            Class::Letter.has(old(self).source@[old(self).index as int]),
        ensures
            final(self).index == span(old(self).source@, old(self).index as int, Class::Letter),
            final(self).source == old(self).source,
            final(self).cache == old(self).cache,
            item@ == Token::Ident(
                old(self).source@.subrange(old(self).index as int, final(self).index as int),
            ),
    {
        let ghost start = self.index as int;
        let mut result = String::new();
        result.push(self.now());
        self.inc();

        while !self.end()
            invariant
                self.source == old(self).source,
                self.cache == old(self).cache,
                0 <= start < self.index <= self.source.len(),
                span(self.source@, self.index as int, Class::Letter) == span(
                    self.source@,
                    start,
                    Class::Letter,
                ),
                result@ == self.source@.subrange(start, self.index as int),
            ensures
                self.index == span(self.source@, start, Class::Letter),
            decreases self.source.len() - self.index,
        {
            let ch = self.now();
            match ch {
                'a'..='z' | 'A'..='Z' => result.push(ch),
                _ => break,
            }
            self.inc();
            assert(result@ == self.source@.subrange(start, self.index as int));
        }

        Item::Ident(result)
    }

    /// Reads the next token and remembers it. At the end of the text there
    /// is none, and none is remembered. A character that begins no token is
    /// an error: the tokenizer stays in front of it, remembers no token, and
    /// fails in the same way whenever it is asked again.
    pub fn next(&mut self) -> (result: Result<Option<Item>, Error>)
        ensures
            final(self)@ == scan(old(self)@.source, old(self)@.index),
            final(self)@.valid(),
            match result {
                Ok(item) => final(self)@.fault() is None && seen(item) == final(self)@.cache,
                Err(error) => final(self)@.fault() == Some(error),
            },
        decreases old(self)@.source.len() - old(self)@.index, 1nat,
    {
        proof {
            use_type_invariant(&*self);
            lemma_scan(self@);
        }
        if !self.end() {
            let ch = self.now();
            let item = match ch {
                ' ' | '\r' | '\n' => return self.blank(),
                'a'..='z' | 'A'..='Z' => self.ident(),
                '0'..='9' => self.number(),
                '+' => self.add(),
                '-' => self.sub(),
                '*' => self.mul(),
                '/' => self.div(),
                ',' => self.comma(),
                '(' => self.lparent(),
                ')' => self.rparent(),
                _ => {
                    self.cache = None;
                    return Err(Error::Lex(ch));
                },
            };
            self.cache = Some(item.clone());
            Ok(Some(item))
        } else {
            self.cache = None;
            Ok(None)
        }
    }

    /// The error at which the tokenizer stands, if it stands at one.
    pub fn error(&self) -> (error: Option<Error>)
        ensures
            error == self@.fault(),
            self@.valid(),
    {
        proof {
            use_type_invariant(self);
        }
        if self.cache.is_none() && self.index < self.source.len() {
            Some(Error::Lex(self.source[self.index]))
        } else {
            None
        }
    }

    /// The token read last, without reading on.
    #[inline(always)]
    pub fn current(&self) -> (item: Option<Item>)
        ensures
            seen(item) == self@.cache,
            self@.valid(),
    {
        proof {
            use_type_invariant(self);
        }
        self.cache.clone()
    }
}

} // verus!
