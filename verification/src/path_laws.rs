//! What holds of how a path is read and drawn, and of how icons are found.
use crate::fontpick::known_of;
use crate::icons::{font_at, font_in, font_name, noted, tip_of};
use crate::logo::{
    command_after, drawn_from, first_path, flushed, in_number, is_command, is_relative, numbers_at,
    numbers_for, path_in, piece_of, read_to, starts_number, words_of, Piece, Reading, TokenModel,
    Word,
};
use crate::seqs::{filter_step, take_all};
use crate::text::lowercase_of;
use vstd::prelude::*;

verus! {

/// The words of a path, written one after the other.
pub open spec fn spelled(words: Seq<TokenModel>) -> Seq<char>
    decreases words.len(),
{
    if words.len() == 0 {
        Seq::empty()
    } else {
        spelled(words.drop_last()) + match words.last() {
            TokenModel::Command(c) => seq![c],
            TokenModel::Number(s) => s,
        }
    }
}

/// A letter that's a command, or a character that numbers are written with.
pub open spec fn says_something() -> spec_fn(char) -> bool {
    |c: char|
        {
            ||| 'a' <= c <= 'z' && c != 'e'
            ||| 'A' <= c <= 'Z' && c != 'E'
            ||| '0' <= c <= '9'
            ||| c == '.' || c == '-' || c == '+' || c == 'e' || c == 'E'
        }
}

/// Nothing of a path is lost when it's read, and nothing is made up: its words are its
/// characters in their order, without what only keeps them apart.
pub proof fn reading_loses_nothing(d: Seq<char>)
    ensures
        spelled(words_of(d)) == d.filter(says_something()),
{
    read_so_far(d, d.len() as int);
    take_all(d);
}

proof fn one_more_word(words: Seq<TokenModel>, w: TokenModel)
    ensures
        spelled(words.push(w)) == spelled(words) + match w {
            TokenModel::Command(c) => seq![c],
            TokenModel::Number(s) => s,
        },
{
    assert(words.push(w).drop_last() =~= words);
}

proof fn flushing_keeps_it(r: Reading)
    ensures
        spelled(flushed(r)) == spelled(r.tokens) + r.number,
{
    if r.number.len() == 0 {
        assert(spelled(r.tokens) + r.number =~= spelled(r.tokens));
    } else {
        one_more_word(r.tokens, TokenModel::Number(r.number));
    }
}

proof fn read_so_far(d: Seq<char>, n: int)
    requires
        0 <= n <= d.len(),
    ensures
        spelled(flushed(read_to(d, n))) == d.take(n).filter(says_something()),
        spelled(read_to(d, n).tokens) + read_to(d, n).number == d.take(n).filter(says_something()),
    decreases n,
{
    let p = says_something();
    let r = read_to(d, n);
    flushing_keeps_it(r);
    if n == 0 {
        assert(d.take(0).filter(p) =~= Seq::<char>::empty()) by {
            reveal_with_fuel(Seq::filter, 1);
        }
        assert(spelled(r.tokens) + r.number =~= Seq::<char>::empty());
    } else {
        read_so_far(d, n - 1);
        filter_step(d, p, n - 1);
        let was = read_to(d, n - 1);
        let c = d[n - 1];
        flushing_keeps_it(was);
        let had = spelled(was.tokens) + was.number;
        if is_command(c) {
            one_more_word(flushed(was), TokenModel::Command(c));
            assert(spelled(r.tokens) + r.number =~= had.push(c));
        } else if starts_number(was.number, c) {
            assert(spelled(r.tokens) + r.number =~= had.push(c));
        } else if in_number(c) {
            assert(spelled(r.tokens) + r.number =~= had.push(c));
        } else {
            assert(spelled(r.tokens) + r.number =~= had);
        }
    }
}

/// The text is one number: no minus in it but at its start or after the letter of its exponent,
/// and one point at most.
pub open spec fn is_one_number(s: Seq<char>) -> bool {
    &&& s.len() > 0
    &&& forall|k: int|
        0 <= k < s.len() ==> {
            let c = #[trigger] s[k];
            &&& '0' <= c <= '9' || c == '.' || c == '-' || c == '+' || c == 'e' || c == 'E'
            &&& c == '-' && k > 0 ==> s[k - 1] == 'e' || s[k - 1] == 'E'
        }
    &&& forall|i: int, j: int| 0 <= i < j < s.len() && s[i] == '.' ==> s[j] != '.'
}

/// A number is read whole.
pub proof fn numbers_stay_whole(s: Seq<char>)
    requires
        is_one_number(s),
    ensures
        words_of(s) == seq![TokenModel::Number(s)],
{
    number_so_far(s, s.len() as int);
    take_all(s);
    assert(words_of(s) =~= seq![TokenModel::Number(s)]);
}

proof fn number_so_far(s: Seq<char>, n: int)
    requires
        is_one_number(s),
        0 <= n <= s.len(),
    ensures
        read_to(s, n).tokens.len() == 0,
        read_to(s, n).number == s.take(n),
    decreases n,
{
    if n == 0 {
        assert(s.take(0) =~= Seq::<char>::empty());
    } else {
        number_so_far(s, n - 1);
        let had = s.take(n - 1);
        let c = s[n - 1];
        assert(s.take(n) =~= had.push(c));
        if n > 1 {
            assert(had.last() == s[n - 2]);
        }
        if c == '.' && had.contains('.') {
            let i = choose|i: int| 0 <= i < had.len() && had[i] == '.';
            assert(s[i] == '.');
        }
        assert(!is_command(c));
        assert(!starts_number(had, c));
    }
}

/// A command in lower case draws what it does in upper case, counted from where the last piece
/// ended; numbers that follow go on with the same piece, a move's with lines.
pub proof fn small_commands_draw_the_same(c: char)
    ensures
        piece_of('m') == piece_of('M') && piece_of('l') == piece_of('L') && piece_of('h')
            == piece_of('H') && piece_of('v') == piece_of('V') && piece_of('c') == piece_of('C'),
        piece_of('M') == Some(Piece::Line) && piece_of('L') == Some(Piece::Line),
        piece_of('H') == Some(Piece::Across) && piece_of('V') == Some(Piece::Down),
        piece_of('C') == Some(Piece::Curve),
        is_relative('m') && is_relative('l') && is_relative('h') && is_relative('v')
            && is_relative('c'),
        !is_relative('M') && !is_relative('L') && !is_relative('H') && !is_relative('V')
            && !is_relative('C'),
        piece_of(command_after(c)) == piece_of(c),
        is_relative(command_after(c)) == is_relative(c),
        command_after(command_after(c)) == command_after(c),
        command_after(c) != 'M' && command_after(c) != 'm',
        numbers_for(Piece::Line) == 2 && numbers_for(Piece::Curve) == 6 && numbers_for(
            Piece::Across,
        ) == 1 && numbers_for(Piece::Down) == 1,
{
}

/// A command with its numbers draws its piece from them, and what's after them is drawn next.
pub proof fn a_command_draws_its_piece(words: Seq<Word>, i: int, before: char, c: char)
    requires
        0 <= i < words.len() <= usize::MAX,
        words[i] == Word::Command(c),
        piece_of(c) is Some,
        i + 1 + numbers_for(piece_of(c)->0) <= words.len(),
        forall|k: int|
            i + 1 <= k < i + 1 + numbers_for(piece_of(c)->0) ==> (#[trigger] words[k])
                == Word::Number,
    ensures
        ({
            let all = drawn_from(words, i, before);
            let rest = drawn_from(words, i + 1 + numbers_for(piece_of(c)->0), command_after(c));
            &&& all.len() == rest.len() + 1
            &&& all[0].piece == piece_of(c)->0
            &&& all[0].relative == is_relative(c)
            &&& all[0].at == i + 1
            &&& all.drop_first() == rest
        }),
{
    let all = drawn_from(words, i, before);
    let rest = drawn_from(words, i + 1 + numbers_for(piece_of(c)->0), command_after(c));
    assert(all.drop_first() =~= rest);
}

/// Closing a shape draws nothing of its own.
pub proof fn closing_draws_nothing(words: Seq<Word>, i: int, before: char, c: char)
    requires
        0 <= i < words.len(),
        words[i] == Word::Command(c),
        c == 'z' || c == 'Z',
    ensures
        drawn_from(words, i, before) == drawn_from(words, i + 1, c),
{
}

/// The pieces are drawn from their own numbers: each starts after the last one's end.
pub proof fn pieces_do_not_share_numbers(words: Seq<Word>, i: int, command: char, k: int)
    requires
        0 <= i,
        words.len() <= usize::MAX,
        0 <= k < drawn_from(words, i, command).len(),
    ensures
        ({
            let all = drawn_from(words, i, command);
            &&& all[k].at >= i
            &&& k + 1 < all.len() ==> all[k].at + numbers_for(all[k].piece) <= all[k + 1].at
        }),
    decreases words.len() + 2 - i,
{
    if i < words.len() {
        let all = drawn_from(words, i, command);
        let (at, c) = match words[i] {
            Word::Command(c) => (i + 1, c),
            Word::Number => (i, command),
        };
        if words[i] is Command && (c == 'z' || c == 'Z') {
            pieces_do_not_share_numbers(words, at, c, k);
        } else {
            match piece_of(c) {
                Some(piece) => {
                    if numbers_at(words, at, numbers_for(piece)) {
                        let next = at + numbers_for(piece);
                        let rest = drawn_from(words, next, command_after(c));
                        assert(forall|m: int| 0 <= m < rest.len() ==> all[m + 1] == rest[m]);
                        if k == 0 {
                            if rest.len() > 0 {
                                pieces_do_not_share_numbers(words, next, command_after(c), 0);
                                assert(all[1] == rest[0]);
                            }
                        } else {
                            pieces_do_not_share_numbers(words, next, command_after(c), k - 1);
                            assert(all[k] == rest[k - 1]);
                            if k + 1 < all.len() {
                                assert(all[k + 1] == rest[k]);
                            }
                        }
                    }
                },
                None => {
                    pieces_do_not_share_numbers(words, at + 1, c, k);
                },
            }
        }
    }
}

// ---- icons ----

/// The font found in a folder is its first.
pub proof fn the_first_font_is_found(names: Seq<Seq<char>>, from: int)
    requires
        0 <= from,
    ensures
        match font_in(names, from) {
            Some(i) => from <= i < names.len() && font_name(lowercase_of(names[i])) && forall|k: int|
                from <= k < i ==> !font_name(lowercase_of(#[trigger] names[k])),
            None => forall|k: int|
                from <= k < names.len() ==> !font_name(lowercase_of(#[trigger] names[k])),
        },
    decreases names.len() - from,
{
    if from < names.len() && !font_name(lowercase_of(names[from])) {
        the_first_font_is_found(names, from + 1);
    }
}

/// The font is looked for folder by folder: it's from the first that can be read and has one.
pub proof fn fonts_are_looked_for_in_order(dirs: Seq<Option<Seq<Seq<char>>>>, from: int)
    requires
        0 <= from,
    ensures
        match font_at(dirs, from) {
            Some((d, i)) => from <= d < dirs.len() && dirs[d] is Some && font_in(dirs[d]->0, 0)
                == Some(i) && forall|k: int|
                from <= k < d ==> (#[trigger] dirs[k]) is None || font_in(dirs[k]->0, 0) is None,
            None => forall|k: int|
                from <= k < dirs.len() ==> (#[trigger] dirs[k]) is None || font_in(
                    dirs[k]->0,
                    0,
                ) is None,
        },
    decreases dirs.len() - from,
{
    if from < dirs.len() {
        fonts_are_looked_for_in_order(dirs, from + 1);
    }
}

/// What's remembered of a character is what was noted of it first.
pub proof fn the_first_note_counts(codes: Seq<(char, bool)>, code: char, from: int)
    requires
        0 <= from,
    ensures
        match noted(codes, code, from) {
            Some(there) => exists|i: int|
                from <= i < codes.len() && #[trigger] codes[i] == (code, there) && forall|k: int|
                    from <= k < i ==> (#[trigger] codes[k]).0 != code,
            None => forall|k: int| from <= k < codes.len() ==> (#[trigger] codes[k]).0 != code,
        },
    decreases codes.len() - from,
{
    if from < codes.len() {
        if codes[from].0 == code {
            assert(codes[from] == (code, codes[from].1));
        } else {
            the_first_note_counts(codes, code, from + 1);
            if let Some(there) = noted(codes, code, from + 1) {
                let i = choose|i: int|
                    from + 1 <= i < codes.len() && #[trigger] codes[i] == (code, there)
                        && forall|k: int| from + 1 <= k < i ==> (#[trigger] codes[k]).0 != code;
                assert(codes[i] == (code, there));
            }
        }
    }
}

/// A button says what it does first; its shortcut comes last.
pub proof fn tips_say_what_it_does_first(tip: Seq<char>, shortcut: Seq<char>)
    ensures
        tip.is_prefix_of(tip_of(tip, shortcut)),
        shortcut.is_suffix_of(tip_of(tip, shortcut)),
        shortcut.len() == 0 ==> tip_of(tip, shortcut) == tip,
{
    reveal_strlit("");
    let all = tip_of(tip, shortcut);
    if shortcut.len() == 0 {
        assert(shortcut =~= ""@);
    }
    assert(tip =~= all.subrange(0, tip.len() as int));
    assert(shortcut =~= all.subrange(all.len() - shortcut.len(), all.len() as int));
}

/// The path taken from a picture is the first that draws something.
pub proof fn the_first_path_that_draws_is_taken(parts: Seq<Seq<char>>, from: int)
    requires
        0 <= from,
    ensures
        match first_path(parts, from) {
            Some(d) => exists|i: int|
                from <= i < parts.len() && path_in(#[trigger] parts[i]) == Some(d)
                    && crate::logo::draws_something(d) && forall|k: int|
                    from <= k < i ==> !takes(#[trigger] parts[k]),
            None => forall|k: int| from <= k < parts.len() ==> !takes(#[trigger] parts[k]),
        },
    decreases parts.len() - from,
{
    if from < parts.len() {
        if takes(parts[from]) {
            assert(path_in(parts[from]) == Some(first_path(parts, from)->0));
        } else {
            the_first_path_that_draws_is_taken(parts, from + 1);
            if let Some(d) = first_path(parts, from + 1) {
                let i = choose|i: int|
                    from + 1 <= i < parts.len() && path_in(#[trigger] parts[i]) == Some(d)
                        && crate::logo::draws_something(d) && forall|k: int|
                        from + 1 <= k < i ==> !takes(#[trigger] parts[k]);
                assert(path_in(parts[i]) == Some(d));
            }
        }
    }
}

/// The piece holds a path that draws something.
pub open spec fn takes(piece: Seq<char>) -> bool {
    path_in(piece) matches Some(d) && crate::logo::draws_something(d)
}

/// What's known of a font family is what was found out of it first.
pub proof fn the_first_thing_known_of_a_family_counts(
    known: Seq<(String, bool)>,
    family: Seq<char>,
    from: int,
)
    requires
        0 <= from,
    ensures
        match known_of(known, family, from) {
            Some(there) => exists|i: int|
                from <= i < known.len() && (#[trigger] known[i]).0@ == family && known[i].1 == there
                    && forall|k: int| from <= k < i ==> (#[trigger] known[k]).0@ != family,
            None => forall|k: int| from <= k < known.len() ==> (#[trigger] known[k]).0@ != family,
        },
    decreases known.len() - from,
{
    if from < known.len() {
        if known[from].0@ == family {
            assert(known[from].1 == known_of(known, family, from)->0);
        } else {
            the_first_thing_known_of_a_family_counts(known, family, from + 1);
            if let Some(there) = known_of(known, family, from + 1) {
                let i = choose|i: int|
                    from + 1 <= i < known.len() && (#[trigger] known[i]).0@ == family && known[i].1
                        == there && forall|k: int|
                        from + 1 <= k < i ==> (#[trigger] known[k]).0@ != family;
                assert(known[i].0@ == family);
            }
        }
    }
}

} // verus!
