//! Reading the `Link` header of a paginated answer.
use vstd::prelude::*;
use crate::text::{replace_all, replace_all_str, split_on, split_on_char, str_equals, trim, trim_str, views};

verus! {

/// `s` without the angle brackets that enclose a link.
pub open spec fn without_angles(s: Seq<char>) -> Seq<char> {
    replace_all(replace_all(s, "<"@, Seq::empty()), ">"@, Seq::empty())
}

/// Searching the `,`-separated fields of a `Link` header for the one whose
/// second `;`-separated part is `rel="next"`: `None` when a field before it
/// (or, when there is none, any field) has no second part; otherwise the link
/// of that field, or no link when no field has it.
pub open spec fn next_link_in(fields: Seq<Seq<char>>) -> Option<Option<Seq<char>>>
    decreases fields.len(),
{
    if fields.len() == 0 {
        Some(None)
    } else {
        let parts = split_on(fields[0], ';');
        if parts.len() < 2 {
            None
        } else if trim(parts[1]) == "rel=\"next\""@ {
            Some(Some(without_angles(parts[0])))
        } else {
            next_link_in(fields.drop_first())
        }
    }
}

/// The link of a `Link` header's `rel="next"` field, when the header can
/// be read.
pub open spec fn next_link(header: Seq<char>) -> Option<Option<Seq<char>>> {
    next_link_in(split_on(header, ','))
}

/// Taking out every `c` leaves no `c`, and no character that was not there.
proof fn lemma_remove_char(s: Seq<char>, c: char, d: char)
    ensures
        !replace_all(s, seq![c], Seq::empty()).contains(c),
        !s.contains(d) ==> !replace_all(s, seq![c], Seq::empty()).contains(d),
    decreases s.len(),
{
    if s.len() > 0 {
        lemma_remove_char(s.drop_first(), c, d);
        assert(s.take(1) =~= seq![s[0]]);
        assert(s.drop_first() =~= s.skip(1));
        let rest = replace_all(s.drop_first(), seq![c], Seq::empty());
        if s[0] == c {
            assert(replace_all(s, seq![c], Seq::empty()) =~= rest);
        } else {
            assert(s.take(1)[0] != seq![c][0]);
            assert(replace_all(s, seq![c], Seq::empty()) =~= seq![s[0]] + rest);
            if !s.contains(d) {
                assert(!s.drop_first().contains(d)) by {
                    if s.drop_first().contains(d) {
                        let k = choose|k: int| 0 <= k < s.drop_first().len() && s.drop_first()[k] == d;
                        assert(s[k + 1] == d);
                    }
                }
                assert(s[0] != d) by {
                    assert(s[0] == s[0]);
                    if s[0] == d {
                        assert(s.contains(d));
                    }
                }
            }
            assert(!(seq![s[0]] + rest).contains(c)) by {
                if (seq![s[0]] + rest).contains(c) {
                    let k = choose|k: int| 0 <= k < (seq![s[0]] + rest).len() && (seq![s[0]] + rest)[k] == c;
                    if k > 0 {
                        assert(rest[k - 1] == c);
                    }
                }
            }
            if !s.contains(d) {
                assert(!(seq![s[0]] + rest).contains(d)) by {
                    if (seq![s[0]] + rest).contains(d) {
                        let k = choose|k: int| 0 <= k < (seq![s[0]] + rest).len() && (seq![s[0]] + rest)[k] == d;
                        if k > 0 {
                            assert(rest[k - 1] == d);
                        }
                    }
                }
            }
        }
    }
}

/// Whether `extract_next_link` can read `header`.
pub fn next_link_is_readable(header: &str) -> (b: bool)
    ensures
        b == next_link(header@) is Some,
{
    let fields = split_on_char(header, ',');
    let n = fields.len();
    let mut i: usize = 0;
    assert(views(fields@).skip(0) =~= views(fields@));
    while i < n
        invariant
            n == fields@.len(),
            i <= n,
            views(fields@) == split_on(header@, ','),
            next_link_in(views(fields@)) == next_link_in(views(fields@).skip(i as int)),
        decreases n - i,
    {
        let ghost rest = views(fields@).skip(i as int);
        assert(rest[0] == fields@[i as int]@);
        assert(rest.drop_first() =~= views(fields@).skip(i + 1));
        let parts = split_on_char(fields[i].as_str(), ';');
        if parts.len() < 2 {
            return false;
        }
        assert(views(parts@)[1] == parts@[1]@);
        if str_equals(trim_str(parts[1].as_str()), "rel=\"next\"") {
            return true;
        }
        i = i + 1;
    }
    assert(views(fields@).skip(n as int) =~= Seq::<Seq<char>>::empty());
    true
}

/// The link of the `rel="next"` field of a `Link` header such as
/// `<https://a/?page=2>; rel="next", <https://a/?page=5>; rel="last"`,
/// without its angle brackets, or `None` when there is no such field.
pub fn extract_next_link(header_val: String) -> (r: Option<String>)
    requires
        next_link(header_val@) is Some,
    ensures
        next_link(header_val@) == Some(
            match r {
                Some(l) => Some(l@),
                None => None,
            },
        ),
        r matches Some(l) ==> !l@.contains('<') && !l@.contains('>'),
{
    let fields = split_on_char(header_val.as_str(), ',');
    let mut splitted_fields: Vec<Vec<String>> = Vec::new();
    let n = fields.len();
    let mut i: usize = 0;
    while i < n
        invariant
            n == fields@.len(),
            i <= n,
            splitted_fields@.len() == i,
            forall|j: int|
                0 <= j < i ==> views(#[trigger] splitted_fields@[j]@) == split_on(fields@[j]@, ';'),
        decreases n - i,
    {
        let tmp = split_on_char(fields[i].as_str(), ';');
        splitted_fields.push(tmp);
        i = i + 1;
    }
    let mut res: Option<String> = None;
    let mut k: usize = 0;
    assert(views(fields@).skip(0) =~= views(fields@));
    while k < n
        invariant_except_break
            n == fields@.len(),
            splitted_fields@.len() == n,
            forall|j: int|
                0 <= j < n ==> views(#[trigger] splitted_fields@[j]@) == split_on(fields@[j]@, ';'),
            views(fields@) == split_on(header_val@, ','),
            next_link_in(views(fields@)) == next_link_in(views(fields@).skip(k as int)),
            next_link(header_val@) is Some,
            k <= n,
            res is None,
        ensures
            next_link(header_val@) == Some(
                match res {
                    Some(l) => Some(l@),
                    None => None,
                },
            ),
            res matches Some(l) ==> !l@.contains('<') && !l@.contains('>'),
        decreases n - k,
    {
        let ghost rest = views(fields@).skip(k as int);
        assert(rest[0] == fields@[k as int]@);
        assert(rest.drop_first() =~= views(fields@).skip(k + 1));
        let field = &splitted_fields[k];
        assert(views(field@) == split_on(fields@[k as int]@, ';'));
        assert(views(field@)[1] == field@[1]@);
        assert(views(field@)[0] == field@[0]@);
        if str_equals(trim_str(field[1].as_str()), "rel=\"next\"") {
            proof {
                reveal_strlit("<");
                reveal_strlit(">");
                reveal_strlit("");
            }
            let without_open = replace_all_str(field[0].as_str(), "<", "");
            let link = replace_all_str(without_open.as_str(), ">", "");
            proof {
                lemma_remove_char(field@[0]@, '<', '>');
                lemma_remove_char(without_open@, '>', '<');
                assert("<"@ =~= seq!['<']);
                assert(">"@ =~= seq!['>']);
                assert(""@ =~= Seq::<char>::empty());
            }
            res = Some(link);
            break ;
        }
        k = k + 1;
    }
    proof {
        if k == n {
            assert(views(fields@).skip(n as int) =~= Seq::<Seq<char>>::empty());
        }
    }
    res
}

} // verus!
