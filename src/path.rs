use vstd::prelude::*;
use crate::text::{split, split_spec, str_eq};
use crate::value::Json;

verus! {

/// The path that stands for the current value itself.
pub open spec fn self_path() -> Seq<char> {
    seq!['$', 's', 'e', 'l', 'f']
}

/// Each segment, in order, preceded by a slash.
pub open spec fn prefixed(ps: Seq<Seq<char>>) -> Seq<char>
    decreases ps.len(),
{
    if ps.len() == 0 {
        Seq::empty()
    } else {
        prefixed(ps.drop_last()) + seq!['/'] + ps.last()
    }
}

/// The pointer for a dotted path: `$self` is kept as it is; otherwise each
/// dot-separated segment is preceded by a slash.
pub open spec fn key_spec(key: Seq<char>) -> Seq<char> {
    if key == self_path() {
        key
    } else {
        prefixed(split_spec(key, '.'))
    }
}

/// Turns a dotted path (`user.age`) into a pointer (`/user/age`); `$self`
/// is returned unchanged.
pub fn parse_key(key: &str) -> (r: String)
    ensures
        r@ == key_spec(key@),
{
    proof {
        reveal_strlit("$self");
        reveal_strlit("/");
        assert("$self"@ =~= self_path());
        assert("/"@ =~= seq!['/']);
    }
    if str_eq(key, "$self") {
        return key.to_owned();
    }
    let pieces = split(key, '.');
    let ghost sp = split_spec(key@, '.');
    let mut res = String::new();
    let mut i: usize = 0;
    while i < pieces.len()
        invariant
            pieces@.len() == sp.len(),
            forall|k: int| 0 <= k < pieces@.len() ==> #[trigger] pieces@[k]@ == sp[k],
            i <= pieces@.len(),
            res@ == prefixed(sp.take(i as int)),
        decreases pieces@.len() - i,
    {
        proof {
            reveal_strlit("/");
            assert("/"@ =~= seq!['/']);
        }
        res.append("/");
        res.append(pieces[i].as_str());
        proof {
            assert(sp.take(i + 1).drop_last() =~= sp.take(i as int));
            assert(sp.take(i + 1).last() == sp[i as int]);
            assert(prefixed(sp.take(i + 1)) == prefixed(sp.take(i as int)) + seq!['/'] + sp[i as int]);
        }
        i = i + 1;
    }
    assert(sp.take(i as int) =~= sp);
    res
}

/// `s` with each non-overlapping occurrence of `a` followed by `b`, taken
/// from the left, replaced by `r`.
pub open spec fn replace_pair(s: Seq<char>, a: char, b: char, r: char) -> Seq<char>
    decreases s.len(),
{
    if s.len() < 2 {
        s
    } else if s[0] == a && s[1] == b {
        seq![r] + replace_pair(s.subrange(2, s.len() as int), a, b, r)
    } else {
        seq![s[0]] + replace_pair(s.drop_first(), a, b, r)
    }
}

/// A pointer token with its escapes undone: `~1` becomes `/`, then `~0`
/// becomes `~`.
pub open spec fn unescape_spec(t: Seq<char>) -> Seq<char> {
    replace_pair(replace_pair(t, '~', '1', '/'), '~', '0', '~')
}

fn replace_pair_exec(s: &str, a: char, b: char, r: &str) -> (res: String)
    requires
        r@.len() == 1,
    ensures
        res@ == replace_pair(s@, a, b, r@[0]),
{
    let n = s.unicode_len();
    let mut out = String::new();
    let mut i: usize = 0;
    assert(s@.subrange(0, n as int) =~= s@);
    while i < n
        invariant
            n == s@.len(),
            i <= n,
            r@.len() == 1,
            out@ + replace_pair(s@.subrange(i as int, n as int), a, b, r@[0]) == replace_pair(
                s@,
                a,
                b,
                r@[0],
            ),
        decreases n - i,
    {
        let ghost rest = s@.subrange(i as int, n as int);
        if i + 1 < n && s.get_char(i) == a && s.get_char(i + 1) == b {
            proof {
                assert(rest.subrange(2, rest.len() as int) =~= s@.subrange(i + 2, n as int));
                assert(seq![r@[0]] =~= r@);
            }
            out.append(r);
            i = i + 2;
        } else {
            let piece = s.substring_char(i, i + 1);
            proof {
                if rest.len() >= 2 {
                    assert(rest.drop_first() =~= s@.subrange(i + 1, n as int));
                } else {
                    assert(s@.subrange(i + 1, n as int) =~= Seq::<char>::empty());
                }
                assert(piece@ =~= seq![rest[0]]);
            }
            out.append(piece);
            i = i + 1;
        }
    }
    assert(s@.subrange(n as int, n as int) =~= Seq::<char>::empty());
    out
}

/// Undoes the escapes of a pointer token.
pub fn unescape(t: &str) -> (r: String)
    ensures
        r@ == unescape_spec(t@),
{
    proof {
        reveal_strlit("/");
        reveal_strlit("~");
    }
    let once = replace_pair_exec(t, '~', '1', "/");
    replace_pair_exec(once.as_str(), '~', '0', "~")
}

/// The value behind an optional reference.
pub open spec fn owned(r: Option<&Json>) -> Option<Json> {
    match r {
        Some(x) => Some(*x),
        None => None,
    }
}

pub open spec fn is_digit(c: char) -> bool {
    '0' <= c <= '9'
}

/// The number that a string of decimal digits denotes.
pub open spec fn digits_value(s: Seq<char>) -> nat
    decreases s.len(),
{
    if s.len() == 0 {
        0
    } else {
        digits_value(s.drop_last()) * 10 + (s.last() as u32 - '0' as u32) as nat
    }
}

/// A token that names an array index: decimal digits, with no leading zero
/// unless it is `0` itself.
pub open spec fn is_index_token(t: Seq<char>) -> bool {
    &&& t.len() > 0
    &&& forall|i: int| 0 <= i < t.len() ==> is_digit(#[trigger] t[i])
    &&& t[0] == '0' ==> t.len() == 1
}

proof fn lemma_digits_prefix(s: Seq<char>, i: int)
    requires
        0 <= i <= s.len(),
        forall|k: int| 0 <= k < s.len() ==> is_digit(#[trigger] s[k]),
    ensures
        digits_value(s.take(i)) <= digits_value(s),
    decreases s.len(),
{
    if i < s.len() {
        let d = s.drop_last();
        assert(s.take(i) =~= d.take(i));
        assert forall|k: int| 0 <= k < d.len() implies is_digit(#[trigger] d[k]) by {
            assert(d[k] == s[k]);
        }
        lemma_digits_prefix(d, i);
        let x = digits_value(d);
        assert(is_digit(s[s.len() - 1]));
        assert(x * 10 >= x) by (nonlinear_arith);
    } else {
        assert(s.take(i) =~= s);
    }
}

/// The index that a token names, if it is one and lies below `bound`.
fn parse_index(t: &str, bound: usize) -> (r: Option<usize>)
    ensures
        r == (if is_index_token(t@) && digits_value(t@) < bound {
            Some(digits_value(t@) as usize)
        } else {
            None::<usize>
        }),
{
    let n = t.unicode_len();
    if n == 0 {
        return None;
    }
    if t.get_char(0) == '0' && n != 1 {
        return None;
    }
    if bound == 0 {
        return None;
    }
    let mut val: usize = 0;
    let mut i: usize = 0;
    while i < n
        invariant
            n == t@.len(),
            i <= n,
            val < bound,
            val == digits_value(t@.take(i as int)),
            forall|k: int| 0 <= k < i ==> is_digit(#[trigger] t@[k]),
        decreases n - i,
    {
        let c = t.get_char(i);
        if c < '0' || c > '9' {
            return None;
        }
        proof {
            assert(t@.take(i + 1).drop_last() =~= t@.take(i as int));
        }
        let next: u128 = val as u128 * 10 + (c as u32 - '0' as u32) as u128;
        if next >= bound as u128 {
            proof {
                if is_index_token(t@) {
                    lemma_digits_prefix(t@, i + 1);
                }
            }
            return None;
        }
        val = next as usize;
        i = i + 1;
    }
    assert(t@.take(n as int) =~= t@);
    Some(val)
}

/// The value of the first member whose key is `key`.
pub open spec fn lookup(members: Seq<(String, Json)>, key: Seq<char>) -> Option<Json>
    decreases members.len(),
{
    if members.len() == 0 {
        None
    } else if members[0].0@ == key {
        Some(members[0].1)
    } else {
        lookup(members.drop_first(), key)
    }
}

/// One step of descent: a member of an object, or an element of an array.
pub open spec fn step_spec(j: Json, token: Seq<char>) -> Option<Json> {
    match j {
        Json::Object(m) => lookup(m@, token),
        Json::Array(l) => if is_index_token(token) && digits_value(token) < l@.len() {
            Some(l@[digits_value(token) as int])
        } else {
            None
        },
        _ => None,
    }
}

/// Descends through `j` along the escaped tokens, in order.
pub open spec fn walk(j: Json, tokens: Seq<Seq<char>>) -> Option<Json>
    decreases tokens.len(),
{
    if tokens.len() == 0 {
        Some(j)
    } else {
        match step_spec(j, unescape_spec(tokens[0])) {
            Some(next) => walk(next, tokens.drop_first()),
            None => None,
        }
    }
}

/// The value that a pointer designates: the document itself for the empty
/// pointer, nothing for a pointer that does not start with a slash, else the
/// descent along its slash-separated tokens.
pub open spec fn pointer_spec(j: Json, p: Seq<char>) -> Option<Json> {
    if p.len() == 0 {
        Some(j)
    } else if p[0] != '/' {
        None
    } else {
        walk(j, split_spec(p, '/').drop_first())
    }
}

fn step<'a>(j: &'a Json, token: &str) -> (r: Option<&'a Json>)
    ensures
        owned(r) == step_spec(*j, token@),
{
    match j {
        Json::Object(m) => {
            let mut i: usize = 0;
            assert(m@.subrange(0, m@.len() as int) =~= m@);
            while i < m.len()
                invariant
                    i <= m@.len(),
                    step_spec(*j, token@) == lookup(m@, token@),
                    lookup(m@.subrange(i as int, m@.len() as int), token@) == lookup(m@, token@),
                decreases m@.len() - i,
            {
                let ghost rest = m@.subrange(i as int, m@.len() as int);
                assert(rest.drop_first() =~= m@.subrange(i + 1, m@.len() as int));
                assert(rest[0] == m@[i as int]);
                if str_eq(m[i].0.as_str(), token) {
                    return Some(&m[i].1);
                }
                i = i + 1;
            }
            None
        },
        Json::Array(l) => match parse_index(token, l.len()) {
            Some(k) => Some(&l[k]),
            None => None,
        },
        _ => None,
    }
}

/// Looks up the value that a pointer designates in a document.
pub fn resolve<'a>(j: &'a Json, p: &str) -> (r: Option<&'a Json>)
    ensures
        owned(r) == pointer_spec(*j, p@),
{
    let n = p.unicode_len();
    if n == 0 {
        return Some(j);
    }
    if p.get_char(0) != '/' {
        return None;
    }
    let tokens = split(p, '/');
    let ghost sp = split_spec(p@, '/');
    let mut cur: &Json = j;
    let mut i: usize = 1;
    proof {
        crate::text::lemma_split_nonempty(p@, '/');
        assert(sp.subrange(1, sp.len() as int) =~= sp.drop_first());
    }
    while i < tokens.len()
        invariant
            tokens@.len() == sp.len(),
            forall|k: int| 0 <= k < tokens@.len() ==> #[trigger] tokens@[k]@ == sp[k],
            1 <= i <= tokens@.len(),
            pointer_spec(*j, p@) == walk(*j, sp.drop_first()),
            walk(*j, sp.drop_first()) == walk(*cur, sp.subrange(i as int, sp.len() as int)),
        decreases tokens@.len() - i,
    {
        let ghost rest = sp.subrange(i as int, sp.len() as int);
        assert(rest.drop_first() =~= sp.subrange(i + 1, sp.len() as int));
        assert(rest[0] == sp[i as int]);
        let token = unescape(tokens[i].as_str());
        match step(cur, token.as_str()) {
            Some(next) => {
                cur = next;
            },
            None => {
                return None;
            },
        }
        i = i + 1;
    }
    Some(cur)
}

/// The value that a predicate's path picks out of an element: the element
/// itself for `$self`, else what the pointer designates.
pub open spec fn cast_path_spec(elt: Json, path: Seq<char>) -> Option<Json> {
    if path == self_path() {
        Some(elt)
    } else {
        pointer_spec(elt, path)
    }
}

/// Resolves a predicate's path (as `parse_key` gives it) against an element.
pub fn cast_path<'a>(elt: &'a Json, path: &str) -> (r: Option<&'a Json>)
    ensures
        owned(r) == cast_path_spec(*elt, path@),
{
    proof {
        reveal_strlit("$self");
        assert("$self"@ =~= self_path());
    }
    if str_eq(path, "$self") {
        Some(elt)
    } else {
        resolve(elt, path)
    }
}

/// The value that `get` finds: the pointer of a dotted path, resolved against
/// the document.
pub fn get<'a>(doc: &'a Json, key: &str) -> (r: Option<&'a Json>)
    ensures
        owned(r) == pointer_spec(*doc, key_spec(key@)),
{
    let pointer = parse_key(key);
    resolve(doc, pointer.as_str())
}

/// The member of an object under a key; nothing for other values.
pub open spec fn member_spec(doc: Json, key: Seq<char>) -> Option<Json> {
    match doc {
        Json::Object(m) => lookup(m@, key),
        _ => None,
    }
}

/// The members of an object under each of the keys, in the keys' order.
pub fn pick<'a>(doc: &'a Json, keys: &Vec<String>) -> (r: Vec<Option<&'a Json>>)
    ensures
        r@.len() == keys@.len(),
        forall|k: int| 0 <= k < r@.len() ==> owned(#[trigger] r@[k]) == member_spec(*doc, keys@[k]@),
{
    let mut out: Vec<Option<&'a Json>> = Vec::new();
    let mut i: usize = 0;
    while i < keys.len()
        invariant
            i <= keys@.len(),
            out@.len() == i,
            forall|k: int| 0 <= k < i ==> owned(#[trigger] out@[k]) == member_spec(*doc, keys@[k]@),
        decreases keys@.len() - i,
    {
        let found = match doc {
            Json::Object(_) => step(doc, keys[i].as_str()),
            _ => None,
        };
        out.push(found);
        i = i + 1;
    }
    out
}

} // verus!
