//! The mark, read from its drawing: finding the path in the picture's text, and reading what
//! the path says to draw.
use crate::seqs::views;
use crate::text::{pieces, split_on, text_of, trim, trimmed};
use vstd::prelude::*;
use vstd::utf8::encode_utf8;

verus! {

// ---- the path in the picture ----

/// What a path says to draw, where it says anything.
pub open spec fn path_in(piece: Seq<char>) -> Option<Seq<char>> {
    let after = pieces(piece, " d=\""@);
    if after.len() > 1 {
        Some(pieces(after[1], "\""@)[0])
    } else {
        None
    }
}

/// It's more than a few characters.
pub open spec fn draws_something(d: Seq<char>) -> bool {
    encode_utf8(trimmed(d)).len() > 20
}

/// What the first path that draws something says, among the pieces from `from` on.
pub open spec fn first_path(parts: Seq<Seq<char>>, from: int) -> Option<Seq<char>>
    decreases parts.len() - from,
{
    if from < 0 || from >= parts.len() {
        None
    } else {
        match path_in(parts[from]) {
            Some(d) => if draws_something(d) {
                Some(d)
            } else {
                first_path(parts, from + 1)
            },
            None => first_path(parts, from + 1),
        }
    }
}

fn path_of(piece: &str) -> (out: Option<String>)
    ensures
        match out {
            Some(d) => path_in(piece@) == Some(d@),
            None => path_in(piece@) is None,
        },
{
    proof {
        reveal_strlit(" d=\"");
        reveal_strlit("\"");
    }
    let after = split_on(piece, " d=\"");
    let ghost all = pieces(piece@, " d=\""@);
    assert(views(after@).len() == after@.len());
    if after.len() > 1 {
        assert(all[1] == after@[1]@);
        let mut quoted = split_on(after[1].as_str(), "\"");
        assert(views(quoted@)[0] == quoted@[0]@);
        Some(quoted.swap_remove(0))
    } else {
        None
    }
}

/// What the first path that draws something says, in the text of an SVG picture.
pub fn path_data(svg: &str) -> (out: Option<String>)
    ensures
        match out {
            Some(d) => first_path(pieces(svg@, "<path"@), 1) == Some(d@),
            None => first_path(pieces(svg@, "<path"@), 1) is None,
        },
{
    proof {
        reveal_strlit("<path");
    }
    let parts = split_on(svg, "<path");
    let ghost all = pieces(svg@, "<path"@);
    let mut i: usize = 1;
    while i < parts.len()
        invariant
            views(parts@) == all,
            all == pieces(svg@, "<path"@),
            1 <= i,
            first_path(all, 1) == first_path(all, i as int),
        decreases parts@.len() - i,
    {
        assert(all[i as int] == parts@[i as int]@);
        if let Some(d) = path_of(parts[i].as_str()) {
            let drawn = trim(d.as_str());
            if drawn.as_str().as_bytes().len() > 20 {
                return Some(d);
            }
        }
        i = i + 1;
    }
    None
}

// ---- what the path says ----

/// A word of a path: a command, or a number as it's written.
pub enum Token {
    Command(char),
    Number(String),
}

pub enum TokenModel {
    Command(char),
    Number(Seq<char>),
}

impl View for Token {
    type V = TokenModel;

    open spec fn view(&self) -> TokenModel {
        match self {
            Token::Command(c) => TokenModel::Command(*c),
            Token::Number(s) => TokenModel::Number(s@),
        }
    }
}

/// A letter that's a command: any but the one numbers are written with.
pub open spec fn is_command(c: char) -> bool {
    (('a' <= c && c <= 'z') || ('A' <= c && c <= 'Z')) && c != 'e' && c != 'E'
}

/// A character numbers are written with.
pub open spec fn in_number(c: char) -> bool {
    ('0' <= c && c <= '9') || c == '.' || c == '-' || c == 'e' || c == 'E' || c == '+'
}

/// The words read so far, and the number being read.
#[verifier::ext_equal]
pub struct Reading {
    pub tokens: Seq<TokenModel>,
    pub number: Seq<char>,
}

/// The number being read ends.
pub open spec fn flushed(r: Reading) -> Seq<TokenModel> {
    if r.number.len() == 0 {
        r.tokens
    } else {
        r.tokens.push(TokenModel::Number(r.number))
    }
}

/// A character starts another number: a minus that isn't an exponent's, or a second point.
pub open spec fn starts_number(number: Seq<char>, c: char) -> bool {
    ||| (c == '-' && number.len() > 0 && number.last() != 'e' && number.last() != 'E')
    ||| (c == '.' && number.contains('.'))
}

/// What's read after one more character.
pub open spec fn read_on(r: Reading, c: char) -> Reading {
    if is_command(c) {
        Reading { tokens: flushed(r).push(TokenModel::Command(c)), number: Seq::empty() }
    } else if starts_number(r.number, c) {
        Reading { tokens: flushed(r), number: seq![c] }
    } else if in_number(c) {
        Reading { tokens: r.tokens, number: r.number.push(c) }
    } else {
        Reading { tokens: flushed(r), number: Seq::empty() }
    }
}

/// What's read after the first characters.
pub open spec fn read_to(d: Seq<char>, n: int) -> Reading
    decreases n,
{
    if n <= 0 {
        Reading { tokens: Seq::empty(), number: Seq::empty() }
    } else {
        read_on(read_to(d, n - 1), d[n - 1])
    }
}

/// The words of a path.
pub open spec fn words_of(d: Seq<char>) -> Seq<TokenModel> {
    flushed(read_to(d, d.len() as int))
}

fn flush(tokens: &mut Vec<Token>, number: &Vec<char>)
    ensures
        views(final(tokens)@) == flushed(
            Reading { tokens: views(old(tokens)@), number: number@ },
        ),
{
    if number.len() > 0 {
        let ghost had = tokens@;
        let text = text_of(number);
        let ghost t = text@;
        tokens.push(Token::Number(text));
        assert(views(tokens@) =~= views(had).push(TokenModel::Number(t)));
    }
}

fn has_point(number: &Vec<char>) -> (out: bool)
    ensures
        out == number@.contains('.'),
{
    let mut i: usize = 0;
    while i < number.len()
        invariant
            i <= number@.len(),
            forall|k: int| 0 <= k < i ==> number@[k] != '.',
        decreases number@.len() - i,
    {
        if number[i] == '.' {
            assert(number@.contains(number@[i as int]));
            return true;
        }
        i = i + 1;
    }
    false
}

/// The words of a path: its commands, and its numbers as they're written.
pub fn tokens(d: &str) -> (out: Vec<Token>)
    ensures
        views(out@) == words_of(d@),
{
    let chars = crate::text::chars_of(d);
    let mut tokens: Vec<Token> = Vec::new();
    let mut number: Vec<char> = Vec::new();
    let mut i: usize = 0;
    assert(views(tokens@) =~= Seq::<TokenModel>::empty());
    assert(number@ =~= Seq::<char>::empty());
    while i < chars.len()
        invariant
            chars@ == d@,
            i <= chars@.len(),
            read_to(d@, i as int) == (Reading { tokens: views(tokens@), number: number@ }),
        decreases chars@.len() - i,
    {
        let c = chars[i];
        let ghost r = read_to(d@, i as int);
        let letter = ('a' <= c && c <= 'z') || ('A' <= c && c <= 'Z');
        if letter && c != 'e' && c != 'E' {
            flush(&mut tokens, &number);
            let ghost had = tokens@;
            tokens.push(Token::Command(c));
            assert(views(tokens@) =~= views(had).push(TokenModel::Command(c)));
            number = Vec::new();
        } else if (c == '-' && number.len() > 0 && number[number.len() - 1] != 'e'
            && number[number.len() - 1] != 'E') || (c == '.' && has_point(&number)) {
            flush(&mut tokens, &number);
            number = Vec::new();
            number.push(c);
            assert(number@ =~= seq![c]);
        } else if ('0' <= c && c <= '9') || c == '.' || c == '-' || c == 'e' || c == 'E' || c
            == '+' {
            number.push(c);
        } else {
            flush(&mut tokens, &number);
            number = Vec::new();
        }
        assert(read_on(r, c) =~= (Reading { tokens: views(tokens@), number: number@ }));
        i = i + 1;
    }
    flush(&mut tokens, &number);
    tokens
}

/// A number as it can be written: only with the characters of numbers, with one point at
/// most.
pub open spec fn is_clean(number: Seq<char>) -> bool {
    &&& forall|i: int| 0 <= i < number.len() ==> in_number(#[trigger] number[i])
    &&& forall|i: int, j: int|
        0 <= i < j < number.len() && (#[trigger] number[i]) == '.' ==> (#[trigger] number[j]) != '.'
}

proof fn reading_is_clean(d: Seq<char>, n: int)
    requires
        0 <= n <= d.len(),
    ensures
        is_clean(read_to(d, n).number),
        forall|i: int|
            0 <= i < read_to(d, n).tokens.len() ==> ((#[trigger] read_to(d, n).tokens[i]) matches
                TokenModel::Number(s) ==> is_clean(s)),
    decreases n,
{
    if n > 0 {
        reading_is_clean(d, n - 1);
        let r = read_to(d, n - 1);
        let c = d[n - 1];
        let next = read_to(d, n);
        if !is_command(c) && !starts_number(r.number, c) && in_number(c) {
            assert forall|i: int, j: int|
                0 <= i < j < next.number.len() && (#[trigger] next.number[i]) == '.' implies (
            #[trigger] next.number[j]) != '.' by {
                assert(next.number[i] == r.number[i]);
                if j < r.number.len() {
                    assert(next.number[j] == r.number[j]);
                } else {
                    assert(r.number.contains(r.number[i]));
                }
            }
        }
        assert forall|i: int| 0 <= i < next.tokens.len() implies ((#[trigger] next.tokens[i]) matches
            TokenModel::Number(s) ==> is_clean(s)) by {
            if i < r.tokens.len() {
                assert(next.tokens[i] == r.tokens[i]);
            }
        }
    }
}

/// The numbers of a path come apart where they should: each has only the characters of
/// numbers, and one point at most.
pub proof fn numbers_come_apart(d: Seq<char>, i: int)
    requires
        0 <= i < words_of(d).len(),
    ensures
        words_of(d)[i] matches TokenModel::Number(s) ==> is_clean(s),
{
    reading_is_clean(d, d.len() as int);
    let r = read_to(d, d.len() as int);
    if i < r.tokens.len() {
        assert(words_of(d)[i] == r.tokens[i]);
    }
}

// ---- what it draws ----

/// A word whose numbers were read.
#[derive(Copy, Clone, Debug, PartialEq, Eq, Structural)]
pub enum Word {
    Command(char),
    Number,
}

/// A piece of the outline.
#[derive(Copy, Clone, Debug, PartialEq, Eq, Structural)]
pub enum Piece {
    /// To a point.
    Line,
    /// Across to a place.
    Across,
    /// Down to a place.
    Down,
    /// A curve over two points to a third.
    Curve,
}

/// A piece of the outline, the place of the first of its numbers among the words, and whether
/// they count from where the piece before it ended.
#[derive(Copy, Clone, Debug, PartialEq, Eq, Structural)]
pub struct Draw {
    pub piece: Piece,
    pub relative: bool,
    pub at: usize,
}

/// How many numbers a piece takes.
pub open spec fn numbers_for(piece: Piece) -> int {
    match piece {
        Piece::Line => 2,
        Piece::Across => 1,
        Piece::Down => 1,
        Piece::Curve => 6,
    }
}

/// What a command draws.
pub open spec fn piece_of(c: char) -> Option<Piece> {
    if c == 'M' || c == 'm' || c == 'L' || c == 'l' {
        Some(Piece::Line)
    } else if c == 'H' || c == 'h' {
        Some(Piece::Across)
    } else if c == 'V' || c == 'v' {
        Some(Piece::Down)
    } else if c == 'C' || c == 'c' {
        Some(Piece::Curve)
    } else {
        None
    }
}

/// A command in lower case counts from where the last piece ended.
pub open spec fn is_relative(c: char) -> bool {
    'a' <= c && c <= 'z'
}

/// Numbers after a move are lines.
pub open spec fn command_after(c: char) -> char {
    if c == 'M' {
        'L'
    } else if c == 'm' {
        'l'
    } else {
        c
    }
}

/// There are `n` numbers from `at` on.
pub open spec fn numbers_at(words: Seq<Word>, at: int, n: int) -> bool {
    at + n <= words.len() && forall|k: int|
        at <= k < at + n ==> (#[trigger] words[k]) == Word::Number
}

/// What the words from `i` on draw, under a command.
pub open spec fn drawn_from(words: Seq<Word>, i: int, command: char) -> Seq<Draw>
    decreases words.len() + 2 - i,
{
    if i < 0 || i >= words.len() {
        Seq::empty()
    } else {
        let (at, c) = match words[i] {
            Word::Command(c) => (i + 1, c),
            Word::Number => (i, command),
        };
        if words[i] is Command && (c == 'z' || c == 'Z') {
            drawn_from(words, at, c)
        } else {
            match piece_of(c) {
                Some(piece) => if numbers_at(words, at, numbers_for(piece)) {
                    seq![
                        Draw { piece, relative: is_relative(c), at: at as usize },
                    ] + drawn_from(words, at + numbers_for(piece), command_after(c))
                } else {
                    Seq::empty()
                },
                None => drawn_from(words, at + 1, c),
            }
        }
    }
}

fn has_numbers(words: &Vec<Word>, at: usize, n: usize) -> (out: bool)
    ensures
        out == numbers_at(words@, at as int, n as int),
{
    let len: usize = words.len();
    if n > len || at > len - n {
        return false;
    }
    let mut k: usize = 0;
    while k < n
        invariant
            len == words@.len(),
            at + n <= len,
            k <= n,
            forall|j: int| at <= j < at + k ==> (#[trigger] words@[j]) == Word::Number,
        decreases n - k,
    {
        if words[at + k] != Word::Number {
            assert(words@[at + k] != Word::Number);
            return false;
        }
        k = k + 1;
    }
    true
}

/// What a path's words draw, piece by piece.
pub fn outline(words: &Vec<Word>) -> (out: Vec<Draw>)
    ensures
        out@ == drawn_from(words@, 0, 'M'),
{
    let n: usize = words.len();
    let mut out: Vec<Draw> = Vec::new();
    let mut i: usize = 0;
    let mut command: char = 'M';
    let ghost all = drawn_from(words@, 0, 'M');
    assert(out@ + drawn_from(words@, 0, 'M') =~= all);
    while i < n
        invariant
            n == words@.len(),
            i <= n,
            all == drawn_from(words@, 0, 'M'),
            out@ + drawn_from(words@, i as int, command) == all,
        decreases n - i,
    {
        let mut at: usize = i;
        let mut c: char = command;
        if let Word::Command(x) = words[i] {
            c = x;
            at = i + 1;
            if c == 'z' || c == 'Z' {
                i = at;
                command = c;
                continue ;
            }
        }
        let relative = 'a' <= c && c <= 'z';
        let piece: Option<Piece> = if c == 'M' || c == 'm' || c == 'L' || c == 'l' {
            Some(Piece::Line)
        } else if c == 'H' || c == 'h' {
            Some(Piece::Across)
        } else if c == 'V' || c == 'v' {
            Some(Piece::Down)
        } else if c == 'C' || c == 'c' {
            Some(Piece::Curve)
        } else {
            None
        };
        match piece {
            Some(p) => {
                let takes: usize = match p {
                    Piece::Line => 2,
                    Piece::Across => 1,
                    Piece::Down => 1,
                    Piece::Curve => 6,
                };
                if !has_numbers(words, at, takes) {
                    assert(out@ + Seq::<Draw>::empty() =~= out@);
                    return out;
                }
                let draw = Draw { piece: p, relative, at };
                let ghost rest = drawn_from(words@, at + takes, command_after(c));
                let ghost had = out@;
                out.push(draw);
                assert(had + (seq![draw] + rest) =~= out@ + rest);
                command = if c == 'M' {
                    'L'
                } else if c == 'm' {
                    'l'
                } else {
                    c
                };
                i = at + takes;
            },
            None => {
                command = c;
                if at < n {
                    i = at + 1;
                } else {
                    assert(drawn_from(words@, at + 1, c) =~= Seq::<Draw>::empty());
                    assert(out@ + Seq::<Draw>::empty() =~= out@);
                    return out;
                }
            },
        }
    }
    assert(out@ + Seq::<Draw>::empty() =~= out@);
    out
}

/// Every piece has its numbers: as many words as it takes, from the place it names, are
/// numbers.
pub proof fn pieces_have_their_numbers(words: Seq<Word>, i: int, command: char, k: int)
    requires
        0 <= i,
        words.len() <= usize::MAX,
        0 <= k < drawn_from(words, i, command).len(),
    ensures
        ({
            let d = drawn_from(words, i, command)[k];
            numbers_at(words, d.at as int, numbers_for(d.piece))
        }),
    decreases words.len() + 2 - i,
{
    let (at, c) = match words[i] {
        Word::Command(c) => (i + 1, c),
        Word::Number => (i, command),
    };
    if words[i] is Command && (c == 'z' || c == 'Z') {
        pieces_have_their_numbers(words, at, c, k);
    } else {
        match piece_of(c) {
            Some(piece) => {
                if k > 0 {
                    pieces_have_their_numbers(
                        words,
                        at + numbers_for(piece),
                        command_after(c),
                        k - 1,
                    );
                }
            },
            None => {
                pieces_have_their_numbers(words, at + 1, c, k);
            },
        }
    }
}

} // verus!
