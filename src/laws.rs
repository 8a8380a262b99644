use vstd::prelude::*;
use crate::parsers::{literal_spec, parse_spec, split_args_spec, ParseError, Predicate};
use crate::path::{cast_path_spec, key_spec};
use crate::runner::{every_spec, filter_spec, find_spec, matches_spec, some_spec};
use crate::text::{lemma_split_join, lemma_split_whole, split_spec};
use crate::value::{same_kind, Json};

verus! {

/// Once some prefix holds a match, longer prefixes find the same element.
pub proof fn lemma_find_extends(s: Seq<Json>, p: Predicate, i: int)
    requires
        0 <= i <= s.len(),
        find_spec(s.take(i), p) is Some,
    ensures
        find_spec(s, p) == find_spec(s.take(i), p),
    decreases s.len() - i,
{
    if i < s.len() {
        assert(s.take(i + 1).drop_last() =~= s.take(i));
        lemma_find_extends(s, p, i + 1);
    } else {
        assert(s.take(i) =~= s);
    }
}

/// Round trip: a predicate string assembled from a path, an operator token,
/// a type tag and a literal text, none of which holds a separator (and the
/// tag and text no colon), splits back into exactly those four fields; when
/// the literal is valid, parsing yields the pointer of that path, that
/// operator token and that literal.
pub proof fn law_parse_round_trip(
    path: Seq<char>,
    operator: Seq<char>,
    tag: Seq<char>,
    text: Seq<char>,
    number: Option<u64>,
)
    requires
        !path.contains(','),
        !operator.contains(','),
        !tag.contains(','),
        !tag.contains(':'),
        !text.contains(','),
        !text.contains(':'),
    ensures
        split_args_spec(path + seq![','] + operator + seq![','] + tag + seq![':'] + text) == Ok::<
            _,
            ParseError,
        >((path, operator, tag, text)),
        literal_spec(tag, text, number) is Ok ==> parse_spec(
            path + seq![','] + operator + seq![','] + tag + seq![':'] + text,
            number,
        ) == Ok::<_, ParseError>(
            (key_spec(path), operator, literal_spec(tag, text, number)->Ok_0),
        ),
{
    let third = tag + seq![':'] + text;
    assert(!third.contains(',')) by {
        if third.contains(',') {
            let k = choose|k: int| 0 <= k < third.len() && third[k] == ',';
            if k < tag.len() {
                assert(tag[k] == ',');
            } else if k > tag.len() {
                assert(text[k - tag.len() - 1] == ',');
            }
        }
    }
    let rest = operator + seq![','] + third;
    let s = path + seq![','] + operator + seq![','] + tag + seq![':'] + text;
    assert(s =~= path + seq![','] + rest);
    lemma_split_join(path, ',', rest);
    lemma_split_join(operator, ',', third);
    lemma_split_whole(path, ',');
    lemma_split_whole(operator, ',');
    lemma_split_whole(third, ',');
    assert(split_spec(s, ',') =~= seq![path, operator, third]);
    lemma_split_join(tag, ':', text);
    lemma_split_whole(tag, ':');
    lemma_split_whole(text, ':');
    assert(split_spec(third, ':') =~= seq![tag, text]);
}

/// Over an empty array, `every` holds and `some` does not, whatever the
/// predicate.
pub proof fn law_empty_array(p: Predicate)
    ensures
        every_spec(Seq::empty(), p),
        !some_spec(Seq::empty(), p),
{
}

proof fn lemma_filter_find(s: Seq<Json>, p: Predicate)
    ensures
        filter_spec(s, p).len() > 0 ==> some_spec(s, p),
        filter_spec(s, p).len() > 0 ==> find_spec(s, p) == Some(filter_spec(s, p)[0]),
        filter_spec(s, p).len() == 0 ==> find_spec(s, p) is None,
    decreases s.len(),
{
    if s.len() > 0 {
        let d = s.drop_last();
        lemma_filter_find(d, p);
        if filter_spec(d, p).len() > 0 {
            let i = choose|i: int| 0 <= i < d.len() && matches_spec(#[trigger] d[i], p);
            assert(s[i] == d[i]);
        } else if matches_spec(s.last(), p) {
            assert(s[s.len() - 1] == s.last());
        }
    }
}

/// An element that `filter` keeps makes `some` hold, and `find` returns the
/// first element that `filter` keeps.
pub proof fn law_filter_some_find(s: Seq<Json>, p: Predicate, e: Json)
    requires
        filter_spec(s, p).contains(e),
    ensures
        some_spec(s, p),
        find_spec(s, p) == Some(filter_spec(s, p)[0]),
{
    lemma_filter_find(s, p);
}

/// An element whose path resolves to a value of another type than the
/// predicate's literal never matches.
pub proof fn law_type_mismatch(elt: Json, p: Predicate, v: Json)
    requires
        cast_path_spec(elt, p.path@) == Some(v),
        !same_kind(v, p.value),
    ensures
        !matches_spec(elt, p),
{
}

} // verus!
