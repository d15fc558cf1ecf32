//! What holds of texts as they're split, joined, trimmed and filled in.
use crate::text::{
    all_blank, decimal, is_blank, joined, occurs_at, parts, parts_is_never_empty, replaced, trimmed,
};
use vstd::prelude::*;

verus! {

/// The number that decimal digits stand for.
pub open spec fn read_as_number(s: Seq<char>) -> int
    decreases s.len(),
{
    if s.len() == 0 {
        0
    } else {
        10 * read_as_number(s.drop_last()) + (s.last() as int - '0' as int)
    }
}

/// A number that was written down reads as that number, in digits only, with no zero before
/// another digit.
pub proof fn numbers_read_back(n: nat)
    ensures
        read_as_number(decimal(n)) == n,
        decimal(n).len() > 0,
        forall|i: int| 0 <= i < decimal(n).len() ==> '0' <= (#[trigger] decimal(n)[i]) <= '9',
        n > 0 ==> decimal(n)[0] != '0',
    decreases n,
{
    if n >= 10 {
        numbers_read_back(n / 10);
        assert(decimal(n).drop_last() =~= decimal(n / 10));
        assert(decimal(n)[0] == decimal(n / 10)[0]);
    } else {
        assert(decimal(n).drop_last().len() == 0);
        assert(read_as_number(decimal(n).drop_last()) == 0);
    }
}

/// Splitting a text at a character leaves pieces without that character.
pub proof fn parts_hold_no_separator(s: Seq<char>, sep: char)
    ensures
        forall|i: int| 0 <= i < parts(s, sep).len() ==> !(#[trigger] parts(s, sep)[i]).contains(sep),
    decreases s.len(),
{
    if s.len() > 0 {
        let rest = parts(s.drop_last(), sep);
        parts_hold_no_separator(s.drop_last(), sep);
        parts_is_never_empty(s.drop_last(), sep);
        let all = parts(s, sep);
        assert forall|i: int| 0 <= i < all.len() implies !(#[trigger] all[i]).contains(sep) by {
            if i < rest.len() - 1 {
                assert(all[i] == rest[i]);
            } else if s.last() == sep {
                if i == rest.len() - 1 {
                    assert(all[i] == rest[i]);
                }
            } else {
                let last = rest[rest.len() - 1];
                assert(!last.contains(sep));
                assert(all[i] == last.push(s.last()));
                if all[i].contains(sep) {
                    let k = choose|k: int| 0 <= k < all[i].len() && all[i][k] == sep;
                    assert(last[k] == sep);
                }
            }
        }
    }
}

/// A longer last piece makes the joined text longer by as much.
proof fn joined_with_longer_last(v: Seq<Seq<char>>, sep: Seq<char>, c: char)
    requires
        v.len() > 0,
    ensures
        joined(v.drop_last().push(v.last().push(c)), sep) == joined(v, sep).push(c),
{
    let w = v.drop_last().push(v.last().push(c));
    assert(w.drop_last() =~= v.drop_last());
    if v.len() == 1 {
        assert(w[0] == v[0].push(c));
    } else {
        assert(joined(w, sep) =~= joined(v, sep).push(c));
    }
}

/// A text that was split at a character and joined with it again is as it was.
pub proof fn joining_undoes_splitting(s: Seq<char>, sep: char)
    ensures
        joined(parts(s, sep), seq![sep]) == s,
    decreases s.len(),
{
    if s.len() == 0 {
        assert(joined(parts(s, sep), seq![sep]) =~= s);
    } else {
        let rest = parts(s.drop_last(), sep);
        joining_undoes_splitting(s.drop_last(), sep);
        parts_is_never_empty(s.drop_last(), sep);
        if s.last() == sep {
            let all = parts(s, sep);
            assert(all.drop_last() =~= rest);
            assert(joined(all, seq![sep]) =~= s);
        } else {
            joined_with_longer_last(rest, seq![sep], s.last());
            assert(s =~= s.drop_last().push(s.last()));
        }
    }
}

/// Trimming takes the blanks off the two ends and nothing else. `a` is how many are taken off
/// the start.
pub proof fn trimming_takes_the_blanks_off(s: Seq<char>) -> (a: int)
    ensures
        0 <= a,
        a + trimmed(s).len() <= s.len(),
        trimmed(s) == s.subrange(a, a + trimmed(s).len()),
        all_blank(s.take(a)),
        all_blank(s.skip(a + trimmed(s).len())),
        trimmed(s).len() > 0 ==> !is_blank(trimmed(s)[0]) && !is_blank(trimmed(s).last()),
    decreases s.len(),
{
    let n = trimmed(s).len() as int;
    if s.len() == 0 {
        assert(trimmed(s) =~= s.subrange(0, 0));
        0
    } else if is_blank(s[0]) {
        let rest = s.drop_first();
        let a = trimming_takes_the_blanks_off(rest);
        assert(s.subrange(a + 1, a + 1 + n) =~= rest.subrange(a, a + n));
        assert forall|i: int| 0 <= i < s.take(a + 1).len() implies is_blank(
            #[trigger] s.take(a + 1)[i],
        ) by {
            if i > 0 {
                assert(rest.take(a)[i - 1] == s.take(a + 1)[i]);
            }
        }
        assert(s.skip(a + 1 + n) =~= rest.skip(a + n));
        a + 1
    } else if is_blank(s.last()) {
        let rest = s.drop_last();
        let a = trimming_takes_the_blanks_off(rest);
        assert(s.subrange(a, a + n) =~= rest.subrange(a, a + n));
        assert(s.take(a) =~= rest.take(a));
        assert forall|i: int| 0 <= i < s.skip(a + n).len() implies is_blank(
            #[trigger] s.skip(a + n)[i],
        ) by {
            if i < rest.skip(a + n).len() {
                assert(rest.skip(a + n)[i] == s.skip(a + n)[i]);
            }
        }
        a
    } else {
        assert(s.subrange(0, n) =~= s);
        0
    }
}

/// What doesn't occur in a text isn't replaced.
pub proof fn what_is_not_there_is_not_replaced(s: Seq<char>, p: Seq<char>, by: Seq<char>)
    requires
        forall|i: int| !#[trigger] occurs_at(s, p, i),
    ensures
        replaced(s, p, by) == s,
    decreases s.len(),
{
    if p.len() > 0 && s.len() >= p.len() {
        let rest = s.subrange(1, s.len() as int);
        assert(!occurs_at(s, p, 0));
        assert forall|i: int| !#[trigger] occurs_at(rest, p, i) by {
            if occurs_at(rest, p, i) {
                assert(s.subrange(i + 1, i + 1 + p.len()) =~= rest.subrange(i, i + p.len()));
                assert(occurs_at(s, p, i + 1));
            }
        }
        what_is_not_there_is_not_replaced(rest, p, by);
        assert(seq![s[0]] + rest =~= s);
    }
}

/// Where it first occurs the replacement stands instead; what's before stays, and what's after
/// is gone through in the same way.
pub proof fn the_first_one_is_replaced(s: Seq<char>, p: Seq<char>, by: Seq<char>, i: int)
    requires
        p.len() > 0,
        occurs_at(s, p, i),
        forall|j: int| 0 <= j < i ==> !#[trigger] occurs_at(s, p, j),
    ensures
        replaced(s, p, by) == s.take(i) + by + replaced(s.skip(i + p.len()), p, by),
    decreases s.len(),
{
    if i == 0 {
        assert(s.subrange(p.len() as int, s.len() as int) =~= s.skip(p.len() as int));
        assert(replaced(s, p, by) =~= s.take(i) + by + replaced(s.skip(i + p.len()), p, by));
    } else {
        let rest = s.subrange(1, s.len() as int);
        assert(!occurs_at(s, p, 0));
        assert(rest.subrange(i - 1, i - 1 + p.len()) =~= s.subrange(i, i + p.len()));
        assert forall|j: int| 0 <= j < i - 1 implies !#[trigger] occurs_at(rest, p, j) by {
            if occurs_at(rest, p, j) {
                assert(s.subrange(j + 1, j + 1 + p.len()) =~= rest.subrange(j, j + p.len()));
                assert(occurs_at(s, p, j + 1));
            }
        }
        the_first_one_is_replaced(rest, p, by, i - 1);
        assert(rest.skip(i - 1 + p.len()) =~= s.skip(i + p.len()));
        assert(seq![s[0]] + rest.take(i - 1) =~= s.take(i));
        assert(replaced(s, p, by) =~= s.take(i) + by + replaced(s.skip(i + p.len()), p, by));
    }
}

} // verus!
