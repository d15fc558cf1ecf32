//! Text as a sequence of characters: comparing, searching, cutting and joining it.
use crate::seqs::views;
use vstd::prelude::*;

verus! {

/// Adds one character at the end, as `String::push` documents.
pub assume_specification[ String::push ](s: &mut String, c: char)
    ensures
        final(s)@ == old(s)@.push(c),
;

/// What `str::to_lowercase` makes of a text: the Unicode lowercase of its characters.
pub uninterp spec fn lowercase_of(s: Seq<char>) -> Seq<char>;

/// Calls `str::to_lowercase`. Claims that the result depends on the text alone.
#[verifier::external_body]
pub(crate) fn lowercase(s: &str) -> (out: String)
    ensures
        out@ == lowercase_of(s@),
{
    s.to_lowercase()
}

/// Whether `char::is_alphanumeric` holds of a character past ASCII (a Unicode letter or
/// number).
pub uninterp spec fn letter_past_ascii(c: char) -> bool;

/// A letter or digit of ASCII.
pub open spec fn ascii_letter(c: char) -> bool {
    'a' <= c <= 'z' || 'A' <= c <= 'Z' || '0' <= c <= '9'
}

/// A letter or number.
pub open spec fn is_letter_or_number(c: char) -> bool {
    if c <= '\u{7f}' {
        ascii_letter(c)
    } else {
        letter_past_ascii(c)
    }
}

/// Calls `char::is_alphanumeric`. Claims that among the ASCII characters it holds of the
/// letters and digits, and that past them the answer depends on the character alone.
#[verifier::external_body]
pub(crate) fn letter_or_number(c: char) -> (out: bool)
    ensures
        out == if c <= '\u{7f}' {
            ascii_letter(c)
        } else {
            letter_past_ascii(c)
        },
{
    c.is_alphanumeric()
}

/// A character with the Unicode property `White_Space`: a space of some width, or a break
/// between lines or paragraphs.
pub open spec fn is_blank(c: char) -> bool {
    '\u{9}' <= c <= '\u{d}' || c == ' ' || c == '\u{85}' || c == '\u{a0}' || c == '\u{1680}'
        || '\u{2000}' <= c <= '\u{200a}' || c == '\u{2028}' || c == '\u{2029}' || c == '\u{202f}' || c
        == '\u{205f}' || c == '\u{3000}'
}

/// Calls `char::is_whitespace`. Claims that it holds of the characters with the Unicode
/// property `White_Space`, and of no others.
#[verifier::external_body]
pub(crate) fn blank(c: char) -> (out: bool)
    ensures
        out == is_blank(c),
{
    c.is_whitespace()
}

/// The characters of `s`.
pub fn chars_of(s: &str) -> (out: Vec<char>)
    ensures
        out@ == s@,
{
    let mut out: Vec<char> = Vec::new();
    let n: usize = s.unicode_len();
    let mut it = s.chars();
    let mut i: usize = 0;
    while i < n
        invariant
            n == s@.len(),
            i <= n,
            out@ == s@.subrange(0, i as int),
            vstd::std_specs::iter::IteratorSpec::remaining(&it) == s@.subrange(i as int, n as int),
        decreases n - i,
    {
        match it.next() {
            Some(c) => {
                out.push(c);
            },
            None => {},
        }
        i = i + 1;
    }
    assert(out@ == s@);
    out
}

/// The text made of `chars[from..to]`.
pub fn text_between(chars: &Vec<char>, from: usize, to: usize) -> (out: String)
    requires
        from <= to <= chars@.len(),
    ensures
        out@ == chars@.subrange(from as int, to as int),
{
    let mut out: String = String::new();
    let mut i: usize = from;
    while i < to
        invariant
            from <= i <= to <= chars@.len(),
            out@ == chars@.subrange(from as int, i as int),
        decreases to - i,
    {
        out.push(chars[i]);
        i = i + 1;
    }
    out
}

/// The text made of `chars`.
pub fn text_of(chars: &Vec<char>) -> (out: String)
    ensures
        out@ == chars@,
{
    let out = text_between(chars, 0, chars.len());
    assert(out@ == chars@);
    out
}

/// `p` stands in `s` at place `i`.
pub open spec fn occurs_at(s: Seq<char>, p: Seq<char>, i: int) -> bool {
    0 <= i && i + p.len() <= s.len() && s.subrange(i, i + p.len()) == p
}

/// `p` stands somewhere in `s`.
pub open spec fn occurs(s: Seq<char>, p: Seq<char>) -> bool {
    exists|i: int| occurs_at(s, p, i)
}

/// Whether `p` stands in `s` at place `i`.
pub fn stands_at(s: &Vec<char>, p: &Vec<char>, i: usize) -> (out: bool)
    ensures
        out == occurs_at(s@, p@, i as int),
{
    if p.len() > s.len() || i > s.len() - p.len() {
        return false;
    }
    let mut j: usize = 0;
    while j < p.len()
        invariant
            i + p@.len() <= s.len(),
            j <= p@.len(),
            forall|k: int| 0 <= k < j ==> s@[i + k] == p@[k],
        decreases p@.len() - j,
    {
        if s[i + j] != p[j] {
            proof {
                assert(s@.subrange(i as int, i + p@.len())[j as int] != p@[j as int]);
            }
            return false;
        }
        j = j + 1;
    }
    assert(s@.subrange(i as int, i + p@.len()) =~= p@);
    true
}

/// Whether the two texts are the same.
pub fn same(a: &str, b: &str) -> (out: bool)
    ensures
        out == (a@ == b@),
{
    let x = chars_of(a);
    let y = chars_of(b);
    if x.len() != y.len() {
        return false;
    }
    let out = stands_at(&x, &y, 0);
    assert(x@.subrange(0, y@.len() as int) =~= x@);
    out
}

/// Whether `s` begins with `p`.
pub fn starts_with(s: &str, p: &str) -> (out: bool)
    ensures
        out == p@.is_prefix_of(s@),
{
    let x = chars_of(s);
    let y = chars_of(p);
    stands_at(&x, &y, 0)
}

/// Whether `s` ends with `p`.
pub fn ends_with(s: &str, p: &str) -> (out: bool)
    ensures
        out == p@.is_suffix_of(s@),
{
    let x = chars_of(s);
    let y = chars_of(p);
    if y.len() > x.len() {
        return false;
    }
    stands_at(&x, &y, x.len() - y.len())
}

/// The first place where `p` stands in `s`, at `from` or after it.
pub fn find_from(s: &Vec<char>, p: &Vec<char>, from: usize) -> (out: Option<usize>)
    ensures
        match out {
            Some(i) => from <= i && occurs_at(s@, p@, i as int) && forall|k: int|
                from <= k < i ==> !occurs_at(s@, p@, k),
            None => forall|k: int| from <= k ==> !occurs_at(s@, p@, k),
        },
{
    if p.len() > s.len() {
        return None;
    }
    let last: usize = s.len() - p.len();
    let mut i: usize = from;
    while i <= last
        invariant
            from <= i,
            last == s@.len() - p@.len(),
            i <= last + 1 || i == from,
            forall|k: int| from <= k < i ==> !occurs_at(s@, p@, k),
        decreases last + 1 - i,
    {
        if stands_at(s, p, i) {
            return Some(i);
        }
        if i == last {
            return None;
        }
        i = i + 1;
    }
    None
}

/// Whether `p` stands somewhere in `s`.
pub fn contains(s: &str, p: &str) -> (out: bool)
    ensures
        out == occurs(s@, p@),
{
    let x = chars_of(s);
    let y = chars_of(p);
    match find_from(&x, &y, 0) {
        Some(_) => true,
        None => {
            assert forall|i: int| !occurs_at(s@, p@, i) by {
                if occurs_at(s@, p@, i) {
                    assert(0 <= i);
                }
            }
            false
        },
    }
}

/// `s` with every `p` in it, read from the left, replaced by `by`.
pub open spec fn replaced(s: Seq<char>, p: Seq<char>, by: Seq<char>) -> Seq<char>
    decreases s.len(),
{
    if p.len() == 0 || s.len() < p.len() {
        s
    } else if occurs_at(s, p, 0) {
        by + replaced(s.subrange(p.len() as int, s.len() as int), p, by)
    } else {
        seq![s[0]] + replaced(s.subrange(1, s.len() as int), p, by)
    }
}

/// `s` with every `p` in it, read from the left, replaced by `by` (an empty `p` replaces
/// nothing).
pub fn replace_all(s: &str, p: &str, by: &str) -> (out: String)
    ensures
        out@ == replaced(s@, p@, by@),
{
    let x = chars_of(s);
    let y = chars_of(p);
    let mut out: String = String::new();
    let mut i: usize = 0;
    if y.len() == 0 {
        return text_of(&x);
    }
    assert(x@.subrange(0, x@.len() as int) =~= x@);
    while i < x.len()
        invariant
            x@ == s@,
            y@ == p@,
            y@.len() > 0,
            i <= x@.len(),
            out@ + replaced(x@.subrange(i as int, x@.len() as int), p@, by@) == replaced(
                s@,
                p@,
                by@,
            ),
        decreases x@.len() - i,
    {
        let ghost rest = x@.subrange(i as int, x@.len() as int);
        let ghost before = out@;
        if stands_at(&x, &y, i) {
            proof {
                assert(rest.subrange(0, y@.len() as int) =~= x@.subrange(i as int, i + y@.len()));
                assert(rest.subrange(y@.len() as int, rest.len() as int) =~= x@.subrange(
                    i + y@.len(),
                    x@.len() as int,
                ));
            }
            out.append(by);
            i = i + y.len();
            proof {
                assert(out@ + replaced(x@.subrange(i as int, x@.len() as int), p@, by@)
                    =~= before + (by@ + replaced(
                    x@.subrange(i as int, x@.len() as int),
                    p@,
                    by@,
                )));
            }
        } else {
            proof {
                if rest.len() >= y@.len() {
                    assert(rest.subrange(0, y@.len() as int) =~= x@.subrange(
                        i as int,
                        i + y@.len(),
                    ));
                } else {
                    assert(rest.subrange(1, rest.len() as int).len() < y@.len());
                    assert(rest =~= seq![rest[0]] + rest.subrange(1, rest.len() as int));
                }
                assert(rest.subrange(1, rest.len() as int) =~= x@.subrange(
                    i + 1,
                    x@.len() as int,
                ));
            }
            out.push(x[i]);
            i = i + 1;
            proof {
                assert(out@ + replaced(x@.subrange(i as int, x@.len() as int), p@, by@)
                    =~= before + (seq![rest[0]] + replaced(
                    x@.subrange(i as int, x@.len() as int),
                    p@,
                    by@,
                )));
            }
        }
    }
    assert(x@.subrange(i as int, x@.len() as int).len() == 0);
    assert(out@ =~= out@ + replaced(x@.subrange(i as int, x@.len() as int), p@, by@));
    out
}

/// The digit for a number below ten.
pub open spec fn digit(d: nat) -> char {
    if d == 0 {
        '0'
    } else if d == 1 {
        '1'
    } else if d == 2 {
        '2'
    } else if d == 3 {
        '3'
    } else if d == 4 {
        '4'
    } else if d == 5 {
        '5'
    } else if d == 6 {
        '6'
    } else if d == 7 {
        '7'
    } else if d == 8 {
        '8'
    } else {
        '9'
    }
}

/// `n` written in decimal.
pub open spec fn decimal(n: nat) -> Seq<char>
    decreases n,
{
    if n < 10 {
        seq![digit(n)]
    } else {
        decimal(n / 10).push(digit(n % 10))
    }
}

/// Different numbers are written differently.
pub proof fn numbers_differ(a: nat, b: nat)
    requires
        a != b,
    ensures
        decimal(a) != decimal(b),
    decreases a + b,
{
    if a >= 10 && b >= 10 {
        let (x, y) = (decimal(a / 10), decimal(b / 10));
        assert(decimal(a) == x.push(digit(a % 10)));
        assert(decimal(b) == y.push(digit(b % 10)));
        assert(decimal(a).last() == digit(a % 10));
        assert(decimal(b).last() == digit(b % 10));
        assert(decimal(a).drop_last() =~= x);
        assert(decimal(b).drop_last() =~= y);
        if a / 10 != b / 10 {
            numbers_differ(a / 10, b / 10);
        } else {
            assert(a % 10 != b % 10);
        }
    } else if a >= 10 {
        numbers_have_digits(a / 10);
        assert(decimal(a).len() > 1 && decimal(b).len() == 1);
    } else if b >= 10 {
        numbers_have_digits(b / 10);
        assert(decimal(b).len() > 1 && decimal(a).len() == 1);
    } else {
        assert(decimal(a)[0] == digit(a));
        assert(decimal(b)[0] == digit(b));
    }
}

proof fn numbers_have_digits(n: nat)
    ensures
        decimal(n).len() > 0,
{
}

fn digit_char(d: u64) -> (c: char)
    requires
        d < 10,
    ensures
        c == digit(d as nat),
{
    if d == 0 {
        '0'
    } else if d == 1 {
        '1'
    } else if d == 2 {
        '2'
    } else if d == 3 {
        '3'
    } else if d == 4 {
        '4'
    } else if d == 5 {
        '5'
    } else if d == 6 {
        '6'
    } else if d == 7 {
        '7'
    } else if d == 8 {
        '8'
    } else {
        '9'
    }
}

/// `n` written in decimal.
pub fn number(n: u64) -> (out: String)
    ensures
        out@ == decimal(n as nat),
    decreases n,
{
    if n < 10 {
        let mut out: String = String::new();
        out.push(digit_char(n));
        assert(out@ =~= decimal(n as nat));
        out
    } else {
        let mut out = number(n / 10);
        out.push(digit_char(n % 10));
        out
    }
}

/// The texts one after another.
pub fn join2(a: &str, b: &str) -> (out: String)
    ensures
        out@ == a@ + b@,
{
    let mut out = a.to_owned();
    out.append(b);
    out
}

/// The texts one after another.
pub fn join3(a: &str, b: &str, c: &str) -> (out: String)
    ensures
        out@ == a@ + b@ + c@,
{
    let mut out = join2(a, b);
    out.append(c);
    out
}

/// `a` comes before `b` in dictionary order, character by character.
pub open spec fn before(a: Seq<char>, b: Seq<char>) -> bool
    decreases a.len(),
{
    if b.len() == 0 {
        false
    } else if a.len() == 0 {
        true
    } else if a[0] != b[0] {
        a[0] < b[0]
    } else {
        before(a.subrange(1, a.len() as int), b.subrange(1, b.len() as int))
    }
}

/// Whether `a` comes before `b` in dictionary order.
pub fn is_before(a: &str, b: &str) -> (out: bool)
    ensures
        out == before(a@, b@),
{
    let x = chars_of(a);
    let y = chars_of(b);
    let mut i: usize = 0;
    assert(x@.subrange(0, x@.len() as int) =~= x@);
    assert(y@.subrange(0, y@.len() as int) =~= y@);
    while i < x.len() && i < y.len()
        invariant
            x@ == a@,
            y@ == b@,
            i <= x@.len(),
            i <= y@.len(),
            before(a@, b@) == before(
                x@.subrange(i as int, x@.len() as int),
                y@.subrange(i as int, y@.len() as int),
            ),
        decreases x@.len() - i,
    {
        let ghost xs = x@.subrange(i as int, x@.len() as int);
        let ghost ys = y@.subrange(i as int, y@.len() as int);
        if x[i] != y[i] {
            return x[i] < y[i];
        }
        proof {
            assert(xs.subrange(1, xs.len() as int) =~= x@.subrange(i + 1, x@.len() as int));
            assert(ys.subrange(1, ys.len() as int) =~= y@.subrange(i + 1, y@.len() as int));
        }
        i = i + 1;
    }
    i < y.len()
}

/// Dictionary order is strict: nothing comes before itself, and of two texts at most one
/// comes before the other.
pub proof fn before_is_strict(a: Seq<char>, b: Seq<char>)
    ensures
        !before(a, a),
        !(before(a, b) && before(b, a)),
    decreases a.len(),
{
    if a.len() > 0 {
        before_is_strict(a.subrange(1, a.len() as int), a.subrange(1, a.len() as int));
        if b.len() > 0 {
            before_is_strict(a.subrange(1, a.len() as int), b.subrange(1, b.len() as int));
        }
    }
}

/// Of two different texts one comes before the other.
pub proof fn before_is_total(a: Seq<char>, b: Seq<char>)
    ensures
        before(a, b) || before(b, a) || a == b,
    decreases a.len(),
{
    if a.len() > 0 && b.len() > 0 {
        before_is_total(a.subrange(1, a.len() as int), b.subrange(1, b.len() as int));
        if a[0] == b[0] && a.subrange(1, a.len() as int) == b.subrange(1, b.len() as int) {
            assert(a =~= seq![a[0]] + a.subrange(1, a.len() as int));
            assert(b =~= seq![b[0]] + b.subrange(1, b.len() as int));
        }
    } else if a.len() == 0 && b.len() == 0 {
        assert(a =~= b);
    }
}

/// What comes before something comes before all that follows it.
pub proof fn before_is_transitive(a: Seq<char>, b: Seq<char>, c: Seq<char>)
    requires
        before(a, b),
        before(b, c),
    ensures
        before(a, c),
    decreases a.len(),
{
    if a.len() > 0 && a[0] == b[0] && b[0] == c[0] {
        before_is_transitive(
            a.subrange(1, a.len() as int),
            b.subrange(1, b.len() as int),
            c.subrange(1, c.len() as int),
        );
    }
}

/// The parts of `s` between the `sep`s, in order. There's always at least one.
pub open spec fn parts(s: Seq<char>, sep: char) -> Seq<Seq<char>>
    decreases s.len(),
{
    if s.len() == 0 {
        seq![Seq::<char>::empty()]
    } else {
        let rest = parts(s.drop_last(), sep);
        if s.last() == sep {
            rest.push(Seq::<char>::empty())
        } else {
            rest.drop_last().push(rest.last().push(s.last()))
        }
    }
}

pub proof fn parts_is_never_empty(s: Seq<char>, sep: char)
    ensures
        parts(s, sep).len() > 0,
    decreases s.len(),
{
    if s.len() > 0 {
        parts_is_never_empty(s.drop_last(), sep);
    }
}

/// The parts of `s` between the `sep`s.
pub fn split(s: &str, sep: char) -> (out: Vec<String>)
    ensures
        views(out@) == parts(s@, sep),
{
    let x = chars_of(s);
    let mut out: Vec<String> = Vec::new();
    let mut part: String = String::new();
    let mut i: usize = 0;
    assert(x@.take(0) =~= Seq::<char>::empty());
    assert(views(out@).push(part@) =~= parts(x@.take(0), sep));
    while i < x.len()
        invariant
            i <= x@.len(),
            views(out@).push(part@) == parts(x@.take(i as int), sep),
        decreases x@.len() - i,
    {
        let c: char = x[i];
        let ghost was = parts(x@.take(i as int), sep);
        assert(was.last() == part@ && was.drop_last() =~= views(out@));
        assert(x@.take(i + 1).drop_last() =~= x@.take(i as int));
        if c == sep {
            out.push(part);
            part = String::new();
            assert(views(out@) =~= was);
        } else {
            part.push(c);
        }
        i = i + 1;
        assert(views(out@).push(part@) =~= parts(x@.take(i as int), sep));
    }
    out.push(part);
    assert(x@.take(i as int) =~= s@);
    assert(views(out@) =~= parts(s@, sep));
    out
}

/// The texts one after another with `sep` between them.
pub open spec fn joined(v: Seq<Seq<char>>, sep: Seq<char>) -> Seq<char>
    decreases v.len(),
{
    if v.len() == 0 {
        Seq::<char>::empty()
    } else if v.len() == 1 {
        v[0]
    } else {
        joined(v.drop_last(), sep) + sep + v.last()
    }
}

/// The texts one after another with `sep` between them.
pub fn join(v: &Vec<String>, sep: &str) -> (out: String)
    ensures
        out@ == joined(views(v@), sep@),
{
    let mut out: String = String::new();
    let mut i: usize = 0;
    assert(views(v@).take(0) =~= Seq::<Seq<char>>::empty());
    while i < v.len()
        invariant
            i <= v@.len(),
            out@ == joined(views(v@).take(i as int), sep@),
        decreases v@.len() - i,
    {
        assert(views(v@).take(i + 1).drop_last() =~= views(v@).take(i as int));
        if i > 0 {
            out.append(sep);
        }
        out.append(v[i].as_str());
        i = i + 1;
        assert(out@ =~= joined(views(v@).take(i as int), sep@));
    }
    assert(views(v@).take(i as int) =~= views(v@));
    out
}

/// Whether one of the texts is `s`.
pub fn listed(v: &Vec<String>, s: &str) -> (out: bool)
    ensures
        out == views(v@).contains(s@),
{
    let mut i: usize = 0;
    while i < v.len()
        invariant
            i <= v@.len(),
            forall|k: int| 0 <= k < i ==> v@[k]@ != s@,
        decreases v@.len() - i,
    {
        if same(v[i].as_str(), s) {
            assert(views(v@)[i as int] == s@);
            return true;
        }
        i = i + 1;
    }
    assert forall|k: int| 0 <= k < views(v@).len() implies views(v@)[k] != s@ by {
        assert(v@[k]@ != s@);
    }
    false
}

/// `s` without the whitespace at its two ends.
pub open spec fn trimmed(s: Seq<char>) -> Seq<char>
    decreases s.len(),
{
    if s.len() == 0 {
        s
    } else if is_blank(s[0]) {
        trimmed(s.drop_first())
    } else if is_blank(s.last()) {
        trimmed(s.drop_last())
    } else {
        s
    }
}

/// What's left between the ends is a part of the text, with no whitespace at its own ends.
pub proof fn trimming_keeps_the_middle(s: Seq<char>)
    ensures
        trimmed(trimmed(s)) == trimmed(s),
        trimmed(s).len() > 0 ==> !is_blank(trimmed(s)[0]) && !is_blank(trimmed(s).last()),
        forall|c: char| #[trigger] trimmed(s).contains(c) ==> s.contains(c),
    decreases s.len(),
{
    if s.len() > 0 {
        if is_blank(s[0]) {
            trimming_keeps_the_middle(s.drop_first());
            assert forall|c: char| #[trigger] trimmed(s).contains(c) implies s.contains(c) by {
                let i = choose|i: int| 0 <= i < s.len() - 1 && s.drop_first()[i] == c;
                assert(s[i + 1] == c);
            }
        } else if is_blank(s.last()) {
            trimming_keeps_the_middle(s.drop_last());
            assert forall|c: char| #[trigger] trimmed(s).contains(c) implies s.contains(c) by {
                let i = choose|i: int| 0 <= i < s.len() - 1 && s.drop_last()[i] == c;
                assert(s[i] == c);
            }
        }
    }
}

/// `s` without the whitespace at its two ends.
pub fn trim(s: &str) -> (out: String)
    ensures
        out@ == trimmed(s@),
{
    let x = chars_of(s);
    let mut from: usize = 0;
    let mut to: usize = x.len();
    assert(x@.subrange(0, to as int) =~= x@);
    while from < to && blank(x[from])
        invariant
            from <= to == x@.len(),
            trimmed(x@.subrange(from as int, to as int)) == trimmed(s@),
        ensures
            from < to ==> !is_blank(x@[from as int]),
        decreases to - from,
    {
        assert(x@.subrange(from as int, to as int).drop_first() =~= x@.subrange(
            from + 1,
            to as int,
        ));
        from = from + 1;
    }
    while from < to && blank(x[to - 1])
        invariant
            from <= to <= x@.len(),
            from < to ==> !is_blank(x@[from as int]),
            trimmed(x@.subrange(from as int, to as int)) == trimmed(s@),
        ensures
            from < to ==> !is_blank(x@[to - 1]),
        decreases to - from,
    {
        assert(x@.subrange(from as int, to as int).drop_last() =~= x@.subrange(
            from as int,
            to - 1,
        ));
        to = to - 1;
    }
    let out = text_between(&x, from, to);
    assert(out@ == trimmed(out@));
    out
}

/// `s` without the whitespace at its end.
pub open spec fn trimmed_end(s: Seq<char>) -> Seq<char>
    decreases s.len(),
{
    if s.len() > 0 && is_blank(s.last()) {
        trimmed_end(s.drop_last())
    } else {
        s
    }
}

/// `s` without the whitespace at its start.
pub open spec fn trimmed_start(s: Seq<char>) -> Seq<char>
    decreases s.len(),
{
    if s.len() > 0 && is_blank(s[0]) {
        trimmed_start(s.drop_first())
    } else {
        s
    }
}

/// `s` without the whitespace at its end.
pub fn trim_end(s: &str) -> (out: String)
    ensures
        out@ == trimmed_end(s@),
{
    let x = chars_of(s);
    let mut to: usize = x.len();
    assert(x@.take(to as int) =~= x@);
    while to > 0 && blank(x[to - 1])
        invariant
            to <= x@.len(),
            trimmed_end(x@.take(to as int)) == trimmed_end(s@),
        ensures
            to > 0 ==> !is_blank(x@[to - 1]),
        decreases to,
    {
        assert(x@.take(to as int).drop_last() =~= x@.take(to - 1));
        to = to - 1;
    }
    let out = text_between(&x, 0, to);
    assert(out@ =~= x@.take(to as int));
    out
}

/// `s` without the whitespace at its start.
pub fn trim_start(s: &str) -> (out: String)
    ensures
        out@ == trimmed_start(s@),
{
    let x = chars_of(s);
    let n: usize = x.len();
    let mut from: usize = 0;
    assert(x@.skip(0) =~= x@);
    while from < n && blank(x[from])
        invariant
            n == x@.len(),
            from <= n,
            trimmed_start(x@.skip(from as int)) == trimmed_start(s@),
        ensures
            from < n ==> !is_blank(x@[from as int]),
        decreases n - from,
    {
        assert(x@.skip(from as int).drop_first() =~= x@.skip(from + 1));
        from = from + 1;
    }
    let out = text_between(&x, from, n);
    assert(out@ =~= x@.skip(from as int));
    out
}

/// Every character is whitespace.
pub open spec fn all_blank(s: Seq<char>) -> bool {
    forall|i: int| 0 <= i < s.len() ==> is_blank(#[trigger] s[i])
}

/// Whether there's nothing but whitespace.
pub fn is_empty_text(s: &str) -> (out: bool)
    ensures
        out == all_blank(s@),
{
    let x = chars_of(s);
    let mut i: usize = 0;
    while i < x.len()
        invariant
            x@ == s@,
            i <= x@.len(),
            forall|k: int| 0 <= k < i ==> is_blank(#[trigger] x@[k]),
        decreases x@.len() - i,
    {
        if !blank(x[i]) {
            return false;
        }
        i = i + 1;
    }
    true
}

/// A word starts at place `i`: something that isn't whitespace, after whitespace or at the
/// start.
pub open spec fn word_starts(s: Seq<char>, i: int) -> bool {
    0 <= i < s.len() && !is_blank(s[i]) && (i == 0 || is_blank(s[i - 1]))
}

/// How many words start before place `n`.
pub open spec fn words_before(s: Seq<char>, n: int) -> nat
    decreases n,
{
    if n <= 0 {
        0
    } else {
        words_before(s, n - 1) + if word_starts(s, n - 1) {
            1nat
        } else {
            0nat
        }
    }
}

/// How many words start before place `n`.
pub fn count_words(x: &Vec<char>, n: usize) -> (out: usize)
    requires
        n <= x@.len(),
    ensures
        out == words_before(x@, n as int),
        out <= n,
{
    let mut count: usize = 0;
    let mut i: usize = 0;
    while i < n
        invariant
            i <= n <= x@.len(),
            count <= i,
            count == words_before(x@, i as int),
        decreases n - i,
    {
        if !blank(x[i]) && (i == 0 || blank(x[i - 1])) {
            count = count + 1;
        }
        i = i + 1;
    }
    count
}

/// How many bytes a character takes in UTF-8.
pub open spec fn bytes_of(c: char) -> nat {
    if (c as u32) < 0x80 {
        1
    } else if (c as u32) < 0x800 {
        2
    } else if (c as u32) < 0x10000 {
        3
    } else {
        4
    }
}

/// How many bytes the first `n` characters take.
pub open spec fn bytes_before(s: Seq<char>, n: int) -> nat
    decreases n,
{
    if n <= 0 || n > s.len() {
        0
    } else {
        bytes_before(s, n - 1) + bytes_of(s[n - 1])
    }
}

fn byte_count(c: char) -> (out: u64)
    ensures
        out == bytes_of(c),
        1 <= out <= 4,
{
    let n: u32 = c as u32;
    if n < 0x80 {
        1
    } else if n < 0x800 {
        2
    } else if n < 0x10000 {
        3
    } else {
        4
    }
}

/// The place in `s` that's as many bytes in as place `n` is in `from` (`None`: that's in
/// the middle of a character, or past the end).
pub open spec fn same_byte(s: Seq<char>, from: Seq<char>, n: int) -> Option<int> {
    if exists|k: int| 0 <= k <= s.len() && #[trigger] bytes_before(s, k) == bytes_before(from, n) {
        Some(
            choose|k: int|
                0 <= k <= s.len() && #[trigger] bytes_before(s, k) == bytes_before(from, n),
        )
    } else {
        None
    }
}

/// More characters take more bytes.
pub proof fn bytes_grow(s: Seq<char>, a: int, b: int)
    requires
        0 <= a < b <= s.len(),
    ensures
        bytes_before(s, a) < bytes_before(s, b),
    decreases b,
{
    if a < b - 1 {
        bytes_grow(s, a, b - 1);
    }
}

/// The bytes that `n` characters take fit in 64 bits.
proof fn bytes_bounded(s: Seq<char>, n: int)
    requires
        0 <= n <= s.len(),
    ensures
        bytes_before(s, n) <= 4 * n,
    decreases n,
{
    if n > 0 {
        bytes_bounded(s, n - 1);
    }
}

/// The place in `s` that's as many bytes in as place `n` is in `from`.
pub fn find_byte(s: &Vec<char>, from: &Vec<char>, n: usize) -> (out: Option<usize>)
    requires
        n <= from@.len(),
        from@.len() < 0x1000_0000_0000_0000,
        s@.len() < 0x1000_0000_0000_0000,
    ensures
        match out {
            Some(k) => same_byte(s@, from@, n as int) == Some(k as int) && k <= s@.len(),
            None => same_byte(s@, from@, n as int) is None,
        },
{
    let mut want: u64 = 0;
    let mut i: usize = 0;
    while i < n
        invariant
            i <= n <= from@.len(),
            from@.len() < 0x1000_0000_0000_0000,
            want == bytes_before(from@, i as int),
        decreases n - i,
    {
        proof {
            bytes_bounded(from@, i as int);
        }
        want = want + byte_count(from[i]);
        i = i + 1;
    }
    let mut at: u64 = 0;
    let mut k: usize = 0;
    while k < s.len() && at < want
        invariant
            k <= s@.len(),
            s@.len() < 0x1000_0000_0000_0000,
            at == bytes_before(s@, k as int),
            want == bytes_before(from@, n as int),
            forall|j: int| 0 <= j < k ==> #[trigger] bytes_before(s@, j) < want,
        ensures
            k == s@.len() || at >= want,
        decreases s@.len() - k,
    {
        proof {
            bytes_bounded(s@, k as int);
        }
        at = at + byte_count(s[k]);
        k = k + 1;
    }
    proof {
        assert forall|j: int| 0 <= j <= s@.len() && #[trigger] bytes_before(s@, j) == want implies j
            == k && at == want by {
            if j > k {
                bytes_grow(s@, k as int, j);
            }
        }
    }
    if at == want {
        Some(k)
    } else {
        None
    }
}

/// The first place `p` stands in `s` from `from` on.
pub open spec fn next_of(s: Seq<char>, p: Seq<char>, from: int) -> Option<int>
    decreases s.len() + 1 - from,
{
    if from < 0 || from > s.len() {
        None
    } else if occurs_at(s, p, from) {
        Some(from)
    } else {
        next_of(s, p, from + 1)
    }
}

/// A place where `p` stands with none before it is the first.
pub proof fn next_is_first(s: Seq<char>, p: Seq<char>, from: int, at: int)
    requires
        0 <= from <= at,
        occurs_at(s, p, at),
        forall|k: int| from <= k < at ==> !occurs_at(s, p, k),
    ensures
        next_of(s, p, from) == Some(at),
    decreases at - from,
{
    if from < at {
        next_is_first(s, p, from + 1, at);
    }
}

/// Where `p` stands nowhere, there's no first place.
pub proof fn next_is_nowhere(s: Seq<char>, p: Seq<char>, from: int)
    requires
        0 <= from,
        forall|k: int| from <= k ==> !occurs_at(s, p, k),
    ensures
        next_of(s, p, from) is None,
    decreases s.len() + 1 - from,
{
    if from <= s.len() {
        next_is_nowhere(s, p, from + 1);
    }
}

/// The pieces of `s` from `from` on, between the `sep`s.
pub open spec fn pieces_from(s: Seq<char>, sep: Seq<char>, from: int) -> Seq<Seq<char>>
    decreases s.len() - from,
{
    match next_of(s, sep, from) {
        Some(at) => if sep.len() > 0 && from <= at && at + sep.len() <= s.len() {
            seq![s.subrange(from, at)] + pieces_from(s, sep, at + sep.len())
        } else {
            seq![s.skip(from)]
        },
        None => seq![s.skip(from)],
    }
}

/// The pieces of `s` between the `sep`s. There's always at least one.
pub open spec fn pieces(s: Seq<char>, sep: Seq<char>) -> Seq<Seq<char>> {
    pieces_from(s, sep, 0)
}

/// The pieces of `s` between the `sep`s.
pub fn split_on(s: &str, sep: &str) -> (out: Vec<String>)
    requires
        sep@.len() > 0,
    ensures
        views(out@) == pieces(s@, sep@),
        out@.len() > 0,
{
    let x = chars_of(s);
    let y = chars_of(sep);
    let n: usize = x.len();
    let mut out: Vec<String> = Vec::new();
    let mut from: usize = 0;
    assert(views(out@) + pieces_from(s@, sep@, 0) =~= pieces(s@, sep@));
    loop
        invariant
            n == x@.len(),
            x@ == s@,
            y@ == sep@,
            sep@.len() > 0,
            from <= n,
            views(out@) + pieces_from(s@, sep@, from as int) == pieces(s@, sep@),
        decreases n - from,
    {
        match find_from(&x, &y, from) {
            Some(at) => {
                proof {
                    next_is_first(s@, sep@, from as int, at as int);
                }
                let piece = text_between(&x, from, at);
                let ghost had = out@;
                let ghost p = piece@;
                out.push(piece);
                proof {
                    assert(p =~= s@.subrange(from as int, at as int));
                    assert(views(out@) =~= views(had).push(p));
                    assert(views(had) + (seq![p] + pieces_from(s@, sep@, at + sep@.len()))
                        =~= views(out@) + pieces_from(s@, sep@, at + sep@.len()));
                }
                from = at + y.len();
            },
            None => {
                proof {
                    next_is_nowhere(s@, sep@, from as int);
                }
                let piece = text_between(&x, from, n);
                let ghost had = out@;
                let ghost p = piece@;
                out.push(piece);
                proof {
                    assert(p =~= s@.skip(from as int));
                    assert(views(out@) =~= views(had).push(p));
                    assert(views(out@) =~= views(had) + seq![p]);
                }
                return out;
            },
        }
    }
}

} // verus!
