use vstd::prelude::*;

verus! {

/// Copies the characters of `s` into a vector, in order.
pub fn chars_of(s: &str) -> (out: Vec<char>)
    ensures
        out@ == s@,
{
    let n = s.unicode_len();
    let mut out: Vec<char> = Vec::new();
    let mut i: usize = 0;
    while i < n
        invariant
            n == s@.len(),
            i <= n,
            out@ == s@.take(i as int),
        decreases n - i,
    {
        let c = s.get_char(i);
        out.push(c);
        i = i + 1;
        assert(out@ =~= s@.take(i as int));
    }
    assert(out@ =~= s@);
    out
}

} // verus!

verus! {

/// The views of a sequence of strings.
pub open spec fn views(v: Seq<String>) -> Seq<Seq<char>> {
    v.map_values(|x: String| x@)
}

/// The pieces of `s` between occurrences of `sep`, as `str::split` with a
/// `char` pattern yields them: there is always at least one piece, and two
/// adjacent separators give an empty piece.
pub open spec fn split_on(s: Seq<char>, sep: char) -> Seq<Seq<char>>
    decreases s.len(),
{
    if s.len() == 0 {
        seq![Seq::<char>::empty()]
    } else {
        let prev = split_on(s.drop_last(), sep);
        if s.last() == sep {
            prev.push(Seq::<char>::empty())
        } else {
            prev.update(prev.len() - 1, prev.last().push(s.last()))
        }
    }
}

pub proof fn lemma_split_on_nonempty(s: Seq<char>, sep: char)
    ensures
        split_on(s, sep).len() >= 1,
    decreases s.len(),
{
    if s.len() > 0 {
        lemma_split_on_nonempty(s.drop_last(), sep);
    }
}

/// Splits `s` at every occurrence of `sep`.
pub fn split_on_char(s: &str, sep: char) -> (pieces: Vec<String>)
    ensures
        views(pieces@) == split_on(s@, sep),
{
    let cs = chars_of(s);
    let n = cs.len();
    let mut pieces: Vec<String> = Vec::new();
    let mut start: usize = 0;
    let mut i: usize = 0;
    assert(s@.take(0) =~= Seq::<char>::empty());
    assert(views(pieces@).push(s@.subrange(0, 0)) =~= split_on(s@.take(0), sep));
    while i < n
        invariant
            n == s@.len(),
            cs@ == s@,
            start <= i <= n,
            views(pieces@).push(s@.subrange(start as int, i as int)) == split_on(
                s@.take(i as int),
                sep,
            ),
        decreases n - i,
    {
        let ghost old_views = views(pieces@);
        let ghost old_start = start as int;
        let ghost t = s@.take(i as int + 1);
        assert(t.drop_last() =~= s@.take(i as int));
        assert(t.last() == s@[i as int]);
        if cs[i] == sep {
            let piece = String::from_str(s.substring_char(start, i));
            pieces.push(piece);
            start = i + 1;
            assert(views(pieces@) =~= old_views.push(s@.subrange(old_start, i as int)));
            assert(split_on(t, sep) == split_on(s@.take(i as int), sep).push(Seq::<char>::empty()));
            assert(s@.subrange(start as int, i as int + 1) =~= Seq::<char>::empty());
            assert(views(pieces@).push(s@.subrange(start as int, i as int + 1)) =~= split_on(
                t,
                sep,
            ));
        } else {
            assert(views(pieces@) =~= old_views);
            assert(s@.subrange(start as int, i as int + 1) =~= s@.subrange(
                start as int,
                i as int,
            ).push(s@[i as int]));
            assert(views(pieces@).push(s@.subrange(start as int, i as int + 1)) =~= split_on(
                t,
                sep,
            ));
        }
        i = i + 1;
    }
    let ghost old_views = views(pieces@);
    let last = String::from_str(s.substring_char(start, n));
    pieces.push(last);
    assert(s@.take(n as int) =~= s@);
    assert(views(pieces@) =~= old_views.push(s@.subrange(start as int, n as int)));
    pieces
}

/// Whether `c` has the Unicode `White_Space` property, which is what
/// `char::is_whitespace` tests.
pub open spec fn is_white_space(c: char) -> bool {
    ||| ('\u{9}' <= c && c <= '\u{d}')
    ||| c == ' '
    ||| c == '\u{85}'
    ||| c == '\u{a0}'
    ||| c == '\u{1680}'
    ||| ('\u{2000}' <= c && c <= '\u{200a}')
    ||| c == '\u{2028}'
    ||| c == '\u{2029}'
    ||| c == '\u{202f}'
    ||| c == '\u{205f}'
    ||| c == '\u{3000}'
}

pub fn is_white_space_exec(c: char) -> (b: bool)
    ensures
        b == is_white_space(c),
{
    ('\u{9}' <= c && c <= '\u{d}') || c == ' ' || c == '\u{85}' || c == '\u{a0}' || c
        == '\u{1680}' || ('\u{2000}' <= c && c <= '\u{200a}') || c == '\u{2028}' || c
        == '\u{2029}' || c == '\u{202f}' || c == '\u{205f}' || c == '\u{3000}'
}

/// `s` without its leading white space.
pub open spec fn trim_start(s: Seq<char>) -> Seq<char>
    decreases s.len(),
{
    if s.len() > 0 && is_white_space(s[0]) {
        trim_start(s.drop_first())
    } else {
        s
    }
}

/// `s` without its trailing white space.
pub open spec fn trim_end(s: Seq<char>) -> Seq<char>
    decreases s.len(),
{
    if s.len() > 0 && is_white_space(s.last()) {
        trim_end(s.drop_last())
    } else {
        s
    }
}

/// `s` without leading and trailing white space, as `str::trim` returns it.
pub open spec fn trim(s: Seq<char>) -> Seq<char> {
    trim_end(trim_start(s))
}

/// Returns `s` without leading and trailing white space.
pub fn trim_str(s: &str) -> (t: &str)
    ensures
        t@ == trim(s@),
{
    let cs = chars_of(s);
    let n = cs.len();
    let mut a: usize = 0;
    assert(s@.skip(0) =~= s@);
    while a < n && is_white_space_exec(cs[a])
        invariant
            n == s@.len(),
            cs@ == s@,
            a <= n,
            trim_start(s@) == trim_start(s@.skip(a as int)),
        decreases n - a,
    {
        assert(s@.skip(a as int).drop_first() =~= s@.skip(a as int + 1));
        a = a + 1;
    }
    let mut b: usize = n;
    assert(s@.skip(a as int) =~= s@.subrange(a as int, n as int));
    while b > a && is_white_space_exec(cs[b - 1])
        invariant
            n == s@.len(),
            cs@ == s@,
            a <= b <= n,
            trim(s@) == trim_end(s@.subrange(a as int, b as int)),
        decreases b - a,
    {
        assert(s@.subrange(a as int, b as int).drop_last() =~= s@.subrange(
            a as int,
            b as int - 1,
        ));
        b = b - 1;
    }
    s.substring_char(a, b)
}

/// Compares two strings character by character.
pub fn str_equals(a: &str, b: &str) -> (eq: bool)
    ensures
        eq == (a@ == b@),
{
    let ca = chars_of(a);
    let cb = chars_of(b);
    if ca.len() != cb.len() {
        return false;
    }
    let n = ca.len();
    let mut i: usize = 0;
    while i < n
        invariant
            n == ca@.len(),
            n == cb@.len(),
            ca@ == a@,
            cb@ == b@,
            i <= n,
            forall|j: int| 0 <= j < i ==> ca@[j] == cb@[j],
        decreases n - i,
    {
        if ca[i] != cb[i] {
            return false;
        }
        i = i + 1;
    }
    assert(a@ =~= b@);
    true
}

} // verus!

verus! {

/// `s` with every occurrence of `from` replaced by `to`, the occurrences
/// taken from left to right without overlap, as `str::replace` does for a
/// non-empty pattern.
pub open spec fn replace_all(s: Seq<char>, from: Seq<char>, to: Seq<char>) -> Seq<char>
    decreases s.len(),
{
    if s.len() == 0 || from.len() == 0 {
        s
    } else if from.len() <= s.len() && s.take(from.len() as int) == from {
        to + replace_all(s.skip(from.len() as int), from, to)
    } else {
        seq![s[0]] + replace_all(s.drop_first(), from, to)
    }
}

/// Whether `pat` occurs in `cs` at position `at`.
fn occurs_at(cs: &Vec<char>, pat: &Vec<char>, at: usize) -> (b: bool)
    requires
        at <= cs@.len(),
    ensures
        b == (pat@.len() <= cs@.len() - at && cs@.subrange(at as int, at + pat@.len()) == pat@),
{
    let m = pat.len();
    let n = cs.len();
    if m > n - at {
        return false;
    }
    let mut j: usize = 0;
    while j < m
        invariant
            m == pat@.len(),
            n == cs@.len(),
            at <= n,
            m <= n - at,
            j <= m,
            forall|k: int| 0 <= k < j ==> cs@[at + k] == pat@[k],
        decreases m - j,
    {
        if cs[at + j] != pat[j] {
            assert(cs@.subrange(at as int, at + m)[j as int] != pat@[j as int]);
            return false;
        }
        j = j + 1;
    }
    assert(cs@.subrange(at as int, at + m) =~= pat@);
    true
}

/// Replaces every occurrence of the non-empty pattern `from` in `s` by `to`.
pub fn replace_all_str(s: &str, from: &str, to: &str) -> (r: String)
    requires
        from@.len() > 0,
    ensures
        r@ == replace_all(s@, from@, to@),
{
    let cs = chars_of(s);
    let pat = chars_of(from);
    let n = cs.len();
    let m = pat.len();
    let mut out = String::new();
    let mut last: usize = 0;
    let mut i: usize = 0;
    assert(s@.skip(0) =~= s@);
    while i < n
        invariant
            n == s@.len(),
            cs@ == s@,
            pat@ == from@,
            m == from@.len(),
            m > 0,
            last <= i <= n,
            replace_all(s@, from@, to@) == out@ + s@.subrange(last as int, i as int)
                + replace_all(s@.skip(i as int), from@, to@),
        decreases n - i,
    {
        let ghost rest = s@.skip(i as int);
        if occurs_at(&cs, &pat, i) {
            assert(rest.take(m as int) =~= s@.subrange(i as int, i + m));
            assert(rest.skip(m as int) =~= s@.skip(i + m));
            let ghost before = out@;
            out.append(s.substring_char(last, i));
            out.append(to);
            i = i + m;
            last = i;
            assert(s@.subrange(last as int, i as int) =~= Seq::<char>::empty());
            assert(replace_all(s@, from@, to@) == out@ + s@.subrange(last as int, i as int)
                + replace_all(s@.skip(i as int), from@, to@));
        } else {
            proof {
                if m <= rest.len() {
                    assert(rest.take(m as int) =~= s@.subrange(i as int, i + m));
                }
            }
            assert(rest.drop_first() =~= s@.skip(i + 1));
            assert(s@.subrange(last as int, i + 1) =~= s@.subrange(last as int, i as int)
                + seq![s@[i as int]]);
            i = i + 1;
        }
    }
    assert(s@.skip(n as int) =~= Seq::<char>::empty());
    out.append(s.substring_char(last, n));
    out
}

} // verus!

verus! {

pub open spec fn is_digit(c: char) -> bool {
    '0' <= c && c <= '9'
}

pub open spec fn digit_value(c: char) -> nat {
    (c as nat - '0' as nat) as nat
}

/// The number that a sequence of decimal digits denotes.
pub open spec fn digits_value(d: Seq<char>) -> nat
    decreases d.len(),
{
    if d.len() == 0 {
        0
    } else {
        digits_value(d.drop_last()) * 10 + digit_value(d.last())
    }
}

pub open spec fn all_digits(d: Seq<char>) -> bool {
    forall|i: int| 0 <= i < d.len() ==> is_digit(#[trigger] d[i])
}

/// The digits of an unsigned number: `s` without one leading `+`.
pub open spec fn unsigned_digits(s: Seq<char>) -> Seq<char> {
    if s.len() > 0 && s[0] == '+' {
        s.drop_first()
    } else {
        s
    }
}

/// What `s.parse::<u16>()` gives back when it succeeds: an optional `+`
/// followed by at least one decimal digit, denoting a number below 65536.
pub open spec fn parse_u16(s: Seq<char>) -> Option<u16> {
    let d = unsigned_digits(s);
    if d.len() > 0 && all_digits(d) && digits_value(d) <= u16::MAX {
        Some(digits_value(d) as u16)
    } else {
        None
    }
}

proof fn lemma_digits_value_prefix(d: Seq<char>, k: int)
    requires
        0 <= k <= d.len(),
    ensures
        digits_value(d.take(k)) <= digits_value(d),
    decreases d.len(),
{
    if k < d.len() {
        lemma_digits_value_prefix(d.drop_last(), k);
        assert(d.drop_last().take(k) =~= d.take(k));
    } else {
        assert(d.take(k) =~= d);
    }
}

/// Parses a decimal `u16` as `str::parse::<u16>` does.
pub fn parse_u16_str(s: &str) -> (r: Option<u16>)
    ensures
        r == parse_u16(s@),
{
    let cs = chars_of(s);
    let n = cs.len();
    let start: usize = if n > 0 && cs[0] == '+' {
        1
    } else {
        0
    };
    let ghost d = unsigned_digits(s@);
    assert(d =~= s@.skip(start as int));
    if start == n {
        return None;
    }
    let mut acc: u32 = 0;
    let mut i: usize = start;
    assert(d.take(0) =~= Seq::<char>::empty());
    while i < n
        invariant
            n == s@.len(),
            cs@ == s@,
            start <= i <= n,
            d == s@.skip(start as int),
            d == unsigned_digits(s@),
            acc <= 65535,
            acc == digits_value(d.take(i - start)),
            all_digits(d.take(i - start)),
        decreases n - i,
    {
        let c = cs[i];
        assert(d[i - start] == c);
        if !('0' <= c && c <= '9') {
            assert(!is_digit(d[i - start]));
            return None;
        }
        let dv: u32 = (c as u32) - ('0' as u32);
        acc = acc * 10 + dv;
        assert(d.take(i - start + 1).drop_last() =~= d.take(i - start));
        assert(d.take(i - start + 1).last() == c);
        assert(all_digits(d.take(i - start + 1)));
        if acc > 65535 {
            proof {
                if all_digits(d) {
                    lemma_digits_value_prefix(d, i - start + 1);
                }
            }
            return None;
        }
        i = i + 1;
    }
    assert(d.take(n - start) =~= d);
    Some(acc as u16)
}

/// The position of the first `c` in `s`, or -1 when there is none.
pub open spec fn first_index_of(s: Seq<char>, c: char) -> int
    decreases s.len(),
{
    if s.len() == 0 {
        -1
    } else if s[0] == c {
        0
    } else {
        let r = first_index_of(s.drop_first(), c);
        if r < 0 {
            -1
        } else {
            r + 1
        }
    }
}

proof fn lemma_first_index_of(s: Seq<char>, c: char, k: int)
    requires
        0 <= k <= s.len(),
        forall|j: int| 0 <= j < k ==> s[j] != c,
    ensures
        k < s.len() && s[k] == c ==> first_index_of(s, c) == k,
        k == s.len() ==> first_index_of(s, c) == -1,
    decreases s.len(),
{
    if s.len() > 0 && k > 0 {
        lemma_first_index_of(s.drop_first(), c, k - 1);
    }
}

/// At most `n` pieces of `s`, as `str::splitn` with a `char` pattern yields
/// them: the last piece is the rest of `s`, separators included.
pub open spec fn splitn_on(s: Seq<char>, sep: char, n: nat) -> Seq<Seq<char>>
    decreases n,
{
    if n == 0 {
        Seq::empty()
    } else if n == 1 {
        seq![s]
    } else {
        let k = first_index_of(s, sep);
        if k < 0 {
            seq![s]
        } else {
            seq![s.take(k)] + splitn_on(s.skip(k + 1), sep, (n - 1) as nat)
        }
    }
}

/// Splits `s` at the first `limit - 1` occurrences of `sep`.
pub fn splitn_on_char(s: &str, sep: char, limit: usize) -> (pieces: Vec<String>)
    ensures
        views(pieces@) == splitn_on(s@, sep, limit as nat),
{
    let mut pieces: Vec<String> = Vec::new();
    if limit == 0 {
        assert(views(pieces@) =~= Seq::<Seq<char>>::empty());
        return pieces;
    }
    let cs = chars_of(s);
    let n = cs.len();
    let mut start: usize = 0;
    let mut left: usize = limit;
    assert(s@.skip(0) =~= s@);
    assert(views(pieces@) + splitn_on(s@.skip(0), sep, limit as nat) =~= splitn_on(
        s@,
        sep,
        limit as nat,
    ));
    loop
        invariant_except_break
            n == s@.len(),
            cs@ == s@,
            start <= n,
            left >= 1,
            views(pieces@) + splitn_on(s@.skip(start as int), sep, left as nat) == splitn_on(
                s@,
                sep,
                limit as nat,
            ),
        ensures
            start <= n,
            views(pieces@) + seq![s@.skip(start as int)] == splitn_on(s@, sep, limit as nat),
        decreases n - start,
    {
        let ghost rest = s@.skip(start as int);
        if left == 1 {
            break ;
        }
        let mut j: usize = start;
        while j < n && cs[j] != sep
            invariant
                n == s@.len(),
                cs@ == s@,
                start <= j <= n,
                forall|k: int| start <= k < j ==> s@[k] != sep,
            decreases n - j,
        {
            j = j + 1;
        }
        proof {
            assert forall|k: int| 0 <= k < j - start implies rest[k] != sep by {
                assert(rest[k] == s@[start + k]);
            }
            lemma_first_index_of(rest, sep, j - start);
        }
        if j == n {
            break ;
        }
        let ghost old_views = views(pieces@);
        let piece = String::from_str(s.substring_char(start, j));
        pieces.push(piece);
        assert(rest.take(j - start) =~= s@.subrange(start as int, j as int));
        assert(rest.skip(j - start + 1) =~= s@.skip(j + 1));
        assert(views(pieces@) =~= old_views.push(s@.subrange(start as int, j as int)));
        start = j + 1;
        left = left - 1;
        assert(views(pieces@) + splitn_on(s@.skip(start as int), sep, left as nat) =~= old_views
            + splitn_on(rest, sep, (left + 1) as nat));
    }
    let ghost old_views = views(pieces@);
    let last = String::from_str(s.substring_char(start, n));
    pieces.push(last);
    assert(s@.subrange(start as int, n as int) =~= s@.skip(start as int));
    assert(views(pieces@) =~= old_views + seq![s@.skip(start as int)]);
    pieces
}

} // verus!

verus! {

/// The pieces `ps` with `sep` between each two of them.
pub open spec fn join_with(ps: Seq<Seq<char>>, sep: char) -> Seq<char>
    decreases ps.len(),
{
    if ps.len() <= 1 {
        if ps.len() == 1 {
            ps[0]
        } else {
            Seq::empty()
        }
    } else {
        join_with(ps.drop_last(), sep) + seq![sep] + ps.last()
    }
}

/// A piece with no separator in it is split into itself alone.
pub proof fn lemma_split_on_without_sep(x: Seq<char>, sep: char)
    requires
        !x.contains(sep),
    ensures
        split_on(x, sep) == seq![x],
    decreases x.len(),
{
    if x.len() == 0 {
        assert(x =~= Seq::<char>::empty());
    } else {
        assert(!x.drop_last().contains(sep)) by {
            if x.drop_last().contains(sep) {
                let k = choose|k: int| 0 <= k < x.drop_last().len() && x.drop_last()[k] == sep;
                assert(x[k] == sep);
            }
        }
        lemma_split_on_without_sep(x.drop_last(), sep);
        assert(x.last() != sep) by {
            assert(x[x.len() - 1] == x.last());
        }
        assert(x.drop_last().push(x.last()) =~= x);
        let prev = split_on(x.drop_last(), sep);
        assert(split_on(x, sep) == prev.update(prev.len() - 1, prev.last().push(x.last())));
        assert(prev.update(prev.len() - 1, prev.last().push(x.last())) =~= seq![x]);
    }
}

/// Appending a separator and a piece without separators adds that piece.
pub proof fn lemma_split_on_append(s: Seq<char>, x: Seq<char>, sep: char)
    requires
        !x.contains(sep),
    ensures
        split_on(s + seq![sep] + x, sep) == split_on(s, sep).push(x),
    decreases x.len(),
{
    lemma_split_on_nonempty(s, sep);
    if x.len() == 0 {
        let t = s + seq![sep] + x;
        assert(x =~= Seq::<char>::empty());
        assert(t.drop_last() =~= s);
        assert(t.last() == sep);
        assert(split_on(t, sep) == split_on(t.drop_last(), sep).push(Seq::<char>::empty()));
    } else {
        let t = s + seq![sep] + x;
        assert(t.drop_last() =~= s + seq![sep] + x.drop_last());
        assert(!x.drop_last().contains(sep)) by {
            if x.drop_last().contains(sep) {
                let k = choose|k: int| 0 <= k < x.drop_last().len() && x.drop_last()[k] == sep;
                assert(x[k] == sep);
            }
        }
        lemma_split_on_append(s, x.drop_last(), sep);
        assert(t.last() == x.last());
        assert(x.last() != sep) by {
            assert(x[x.len() - 1] == x.last());
        }
        assert(x.drop_last().push(x.last()) =~= x);
        let prev = split_on(t.drop_last(), sep);
        assert(split_on(t, sep) == prev.update(prev.len() - 1, prev.last().push(t.last())));
        assert(prev.update(prev.len() - 1, prev.last().push(t.last())) =~= split_on(s, sep).push(x));
    }
}

/// Splitting undoes joining: pieces without the separator, joined by it,
/// split back into the same pieces.
pub proof fn lemma_split_on_join(ps: Seq<Seq<char>>, sep: char)
    requires
        ps.len() >= 1,
        forall|i: int| 0 <= i < ps.len() ==> !(#[trigger] ps[i]).contains(sep),
    ensures
        split_on(join_with(ps, sep), sep) == ps,
    decreases ps.len(),
{
    if ps.len() == 1 {
        lemma_split_on_without_sep(ps[0], sep);
        assert(seq![ps[0]] =~= ps);
    } else {
        let init = ps.drop_last();
        assert forall|i: int| 0 <= i < init.len() implies !(#[trigger] init[i]).contains(sep) by {
            assert(init[i] == ps[i]);
        }
        lemma_split_on_join(init, sep);
        assert(!ps.last().contains(sep)) by {
            assert(ps[ps.len() - 1] == ps.last());
        }
        lemma_split_on_append(join_with(init, sep), ps.last(), sep);
        assert(init.push(ps.last()) =~= ps);
    }
}

} // verus!

verus! {

/// Whether `from` occurs in `s` at position `i`.
pub open spec fn occurs_at_pos(s: Seq<char>, from: Seq<char>, i: int) -> bool {
    0 <= i && i + from.len() <= s.len() && s.subrange(i, i + from.len()) == from
}

/// Whether `from` occurs anywhere in `s`.
pub open spec fn occurs_in(s: Seq<char>, from: Seq<char>) -> bool {
    exists|i: int| occurs_at_pos(s, from, i)
}

/// Replacing leaves the characters before the first occurrence as they are.
pub proof fn lemma_replace_all_skips(s: Seq<char>, from: Seq<char>, to: Seq<char>, k: int)
    requires
        from.len() > 0,
        0 <= k <= s.len(),
        forall|i: int| 0 <= i < k ==> !occurs_at_pos(s, from, i),
    ensures
        replace_all(s, from, to) == s.take(k) + replace_all(s.skip(k), from, to),
    decreases k,
{
    if k == 0 {
        assert(s.skip(0) =~= s);
        assert(s.take(0) + replace_all(s, from, to) =~= replace_all(s, from, to));
    } else {
        assert(!occurs_at_pos(s, from, 0));
        if from.len() <= s.len() {
            assert(s.take(from.len() as int) =~= s.subrange(0, from.len() as int));
        }
        let t = s.drop_first();
        assert forall|i: int| 0 <= i < k - 1 implies !occurs_at_pos(t, from, i) by {
            if occurs_at_pos(t, from, i) {
                assert(s.subrange(i + 1, i + 1 + from.len()) =~= t.subrange(i, i + from.len()));
                assert(occurs_at_pos(s, from, i + 1));
            }
        }
        lemma_replace_all_skips(t, from, to, k - 1);
        assert(t.skip(k - 1) =~= s.skip(k));
        assert(seq![s[0]] + t.take(k - 1) =~= s.take(k));
        assert(replace_all(s, from, to) == seq![s[0]] + replace_all(t, from, to));
        assert(seq![s[0]] + (t.take(k - 1) + replace_all(s.skip(k), from, to)) =~= s.take(k)
            + replace_all(s.skip(k), from, to));
    }
}

/// Replacing in a text where the pattern does not occur changes nothing.
pub proof fn lemma_replace_all_absent(s: Seq<char>, from: Seq<char>, to: Seq<char>)
    requires
        from.len() > 0,
        !occurs_in(s, from),
    ensures
        replace_all(s, from, to) == s,
{
    lemma_replace_all_skips(s, from, to, s.len() as int);
    assert(s.take(s.len() as int) =~= s);
    assert(s.skip(s.len() as int) =~= Seq::<char>::empty());
    assert(s + Seq::<char>::empty() =~= s);
}

/// An occurrence at the start is replaced, and replacing goes on after it.
pub proof fn lemma_replace_all_at_start(s: Seq<char>, from: Seq<char>, to: Seq<char>)
    requires
        from.len() > 0,
        occurs_at_pos(s, from, 0),
    ensures
        replace_all(s, from, to) == to + replace_all(s.skip(from.len() as int), from, to),
{
    assert(s.take(from.len() as int) =~= s.subrange(0, from.len() as int));
}

} // verus!
