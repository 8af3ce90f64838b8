//! Small helpers on strings and lists of strings.

use vstd::prelude::*;
use vstd::string::{StrSliceExecFns, StringExecFns};

verus! {

/// The characters of each string of a list.
pub open spec fn views(v: Seq<String>) -> Seq<Seq<char>> {
    Seq::new(v.len(), |i: int| v[i]@)
}

/// Where `key` first occurs in `keys`, if it does.
pub open spec fn first_index(keys: Seq<Seq<char>>, key: Seq<char>) -> Option<int>
    decreases keys.len(),
{
    if keys.len() == 0 {
        None
    } else if keys[0] == key {
        Some(0)
    } else {
        match first_index(keys.drop_first(), key) {
            Some(i) => Some(i + 1),
            None => None,
        }
    }
}

/// `first_index` finds the smallest position that holds the key, and finds
/// one whenever the key occurs.
pub proof fn lemma_first_index(keys: Seq<Seq<char>>, key: Seq<char>)
    ensures
        match first_index(keys, key) {
            Some(i) => 0 <= i < keys.len() && keys[i] == key && forall|j: int|
                0 <= j < i ==> keys[j] != key,
            None => forall|j: int| 0 <= j < keys.len() ==> keys[j] != key,
        },
    decreases keys.len(),
{
    if keys.len() != 0 && keys[0] != key {
        let rest = keys.drop_first();
        lemma_first_index(rest, key);
        match first_index(rest, key) {
            Some(i) => {
                assert forall|j: int| 0 <= j < i + 1 implies keys[j] != key by {
                    if j > 0 {
                        assert(keys[j] == rest[j - 1]);
                    }
                }
            },
            None => {
                assert forall|j: int| 0 <= j < keys.len() implies keys[j] != key by {
                    if j > 0 {
                        assert(keys[j] == rest[j - 1]);
                    }
                }
            },
        }
    }
}

/// A position that holds the key with none before it is the first index.
pub proof fn lemma_first_index_is(keys: Seq<Seq<char>>, key: Seq<char>, i: int)
    requires
        0 <= i < keys.len(),
        keys[i] == key,
        forall|j: int| 0 <= j < i ==> keys[j] != key,
    ensures
        first_index(keys, key) == Some(i),
{
    lemma_first_index(keys, key);
}

/// A key that occurs nowhere has no first index.
pub proof fn lemma_first_index_none(keys: Seq<Seq<char>>, key: Seq<char>)
    requires
        forall|j: int| 0 <= j < keys.len() ==> keys[j] != key,
    ensures
        first_index(keys, key) is None,
{
    lemma_first_index(keys, key);
}

/// Appending a key leaves the first index of every key where it was, and
/// gives the appended key the new last position where it did not occur.
pub proof fn lemma_first_index_push(keys: Seq<Seq<char>>, extra: Seq<char>, key: Seq<char>)
    ensures
        first_index(keys.push(extra), key) == match first_index(keys, key) {
            Some(i) => Some(i),
            None => if extra == key {
                Some(keys.len() as int)
            } else {
                None
            },
        },
{
    let after = keys.push(extra);
    lemma_first_index(keys, key);
    assert forall|j: int| 0 <= j < keys.len() implies after[j] == keys[j] by {}
    match first_index(keys, key) {
        Some(i) => {
            assert(after[i] == key);
            lemma_first_index_is(after, key, i);
        },
        None => {
            if extra == key {
                assert(after[keys.len() as int] == key);
                lemma_first_index_is(after, key, keys.len() as int);
            } else {
                lemma_first_index_none(after, key);
            }
        },
    }
}

/// Finds the first string of `keys` equal to `key`.
pub fn position(keys: &Vec<String>, key: &str) -> (r: Option<usize>)
    ensures
        match r {
            Some(i) => first_index(views(keys@), key@) == Some(i as int),
            None => first_index(views(keys@), key@) is None,
        },
{
    let wanted = String::from_str(key);
    let mut i: usize = 0;
    while i < keys.len()
        invariant
            i <= keys.len(),
            wanted@ == key@,
            forall|j: int| 0 <= j < i ==> views(keys@)[j] != key@,
        decreases keys.len() - i,
    {
        if keys[i] == wanted {
            proof {
                lemma_first_index_is(views(keys@), key@, i as int);
            }
            return Some(i);
        }
        i += 1;
    }
    proof {
        lemma_first_index_none(views(keys@), key@);
    }
    None
}

/// Whether `key` occurs in `keys`.
pub fn contains(keys: &Vec<String>, key: &str) -> (r: bool)
    ensures
        r == views(keys@).contains(key@),
{
    let found = position(keys, key);
    proof {
        lemma_first_index(views(keys@), key@);
    }
    found.is_some()
}

/// The two strings one after the other.
pub fn join2(a: &str, b: &str) -> (r: String)
    ensures
        r@ == a@ + b@,
{
    String::from_str(a).concat(b)
}

/// The three strings one after the other.
pub fn join3(a: &str, b: &str, c: &str) -> (r: String)
    ensures
        r@ == a@ + b@ + c@,
{
    String::from_str(a).concat(b).concat(c)
}

/// The characters of a string, one by one.
pub fn chars_of(s: &str) -> (r: Vec<char>)
    ensures
        r@ == s@,
{
    let n: usize = s.unicode_len();
    let mut out: Vec<char> = Vec::new();
    let mut i: usize = 0;
    while i < n
        invariant
            n == s@.len(),
            i <= n,
            out@ == s@.take(i as int),
        decreases n - i,
    {
        out.push(s.get_char(i));
        assert(s@.take(i + 1) =~= s@.take(i as int).push(s@[i as int]));
        i += 1;
    }
    assert(s@.take(n as int) =~= s@);
    out
}

/// Collects characters into a `String` with `String::from_iter`; the string
/// holds exactly the characters given, in their order.
#[verifier::external_body]
pub(crate) fn string_of(chars: &Vec<char>) -> (r: String)
    ensures
        r@ == chars@,
{
    String::from_iter(chars.iter())
}

/// The text with every `from` turned into `to`.
pub open spec fn replaced(s: Seq<char>, from: char, to: char) -> Seq<char> {
    Seq::new(
        s.len(),
        |i: int|
            if s[i] == from {
                to
            } else {
                s[i]
            },
    )
}

/// Replaces every character `from` of `s` by `to`.
pub fn replace_char(s: &str, from: char, to: char) -> (r: String)
    ensures
        r@ == replaced(s@, from, to),
{
    let chars = chars_of(s);
    let mut out: Vec<char> = Vec::new();
    let mut i: usize = 0;
    while i < chars.len()
        invariant
            i <= chars.len(),
            chars@ == s@,
            out.len() == i,
            forall|j: int| 0 <= j < i ==> out[j] == replaced(s@, from, to)[j],
        decreases chars.len() - i,
    {
        let c = chars[i];
        if c == from {
            out.push(to);
        } else {
            out.push(c);
        }
        i += 1;
    }
    assert(out@ =~= replaced(s@, from, to));
    string_of(&out)
}

/// A copy of a list of strings.
pub fn copy_strings(v: &Vec<String>) -> (r: Vec<String>)
    ensures
        views(r@) == views(v@),
{
    let mut out: Vec<String> = Vec::new();
    let mut i: usize = 0;
    while i < v.len()
        invariant
            i <= v.len(),
            out.len() == i,
            forall|j: int| 0 <= j < i ==> out[j]@ == v[j]@,
        decreases v.len() - i,
    {
        out.push(v[i].clone());
        i += 1;
    }
    assert(views(out@) =~= views(v@));
    out
}

/// The lines that `str::lines` splits a text into.
pub uninterp spec fn lines_of(text: Seq<char>) -> Seq<Seq<char>>;

/// The text that `str::trim_start` leaves: the text without the white space
/// it begins with.
pub uninterp spec fn trimmed_start(text: Seq<char>) -> Seq<char>;

/// The text that `str::trim` leaves: the text without the white space it
/// begins and ends with.
pub uninterp spec fn trimmed(text: Seq<char>) -> Seq<char>;

/// Splits a text into lines with `str::lines`.
#[verifier::external_body]
pub(crate) fn split_lines(text: &str) -> (r: Vec<String>)
    ensures
        views(r@) == lines_of(text@),
{
    text.lines().map(|l| l.to_string()).collect()
}

/// Removes leading white space with `str::trim_start`.
#[verifier::external_body]
pub(crate) fn trim_start(text: &str) -> (r: &str)
    ensures
        r@ == trimmed_start(text@),
{
    text.trim_start()
}

/// Removes leading and trailing white space with `str::trim`.
#[verifier::external_body]
pub(crate) fn trim(text: &str) -> (r: &str)
    ensures
        r@ == trimmed(text@),
{
    text.trim()
}

/// Asks `str::starts_with` whether a text begins with a prefix.
#[verifier::external_body]
pub(crate) fn starts_with(text: &str, prefix: &str) -> (r: bool)
    ensures
        r == prefix@.is_prefix_of(text@),
{
    text.starts_with(prefix)
}

/// The number that `str::parse::<u32>` reads from a text; `None` where it
/// refuses the text.
pub uninterp spec fn parsed_u32(text: Seq<char>) -> Option<u32>;

/// Reads a number with `str::parse::<u32>`.
#[verifier::external_body]
pub(crate) fn parse_u32(text: &str) -> (r: Option<u32>)
    ensures
        r == parsed_u32(text@),
{
    text.parse::<u32>().ok()
}

/// The first of the first `n` lines that begins with a prefix.
pub open spec fn first_with_prefix(lines: Seq<Seq<char>>, prefix: Seq<char>, n: int) -> Option<
    Seq<char>,
>
    decreases n,
{
    if n <= 0 {
        None
    } else {
        match first_with_prefix(lines, prefix, n - 1) {
            Some(l) => Some(l),
            None => if prefix.is_prefix_of(lines[n - 1]) {
                Some(lines[n - 1])
            } else {
                None
            },
        }
    }
}

proof fn lemma_first_with_prefix_found(lines: Seq<Seq<char>>, prefix: Seq<char>, k: int, n: int)
    requires
        0 <= k < n <= lines.len(),
        first_with_prefix(lines, prefix, k) is None,
        prefix.is_prefix_of(lines[k]),
    ensures
        first_with_prefix(lines, prefix, n) == Some(lines[k]),
    decreases n - k,
{
    if n > k + 1 {
        lemma_first_with_prefix_found(lines, prefix, k, n - 1);
    }
}

/// Finds the first line of a list that begins with a prefix.
pub fn find_line<'a>(lines: &'a Vec<String>, prefix: &str) -> (r: Option<&'a String>)
    ensures
        match r {
            Some(l) => first_with_prefix(views(lines@), prefix@, lines.len() as int) == Some(l@),
            None => first_with_prefix(views(lines@), prefix@, lines.len() as int) is None,
        },
{
    let mut i: usize = 0;
    while i < lines.len()
        invariant
            i <= lines.len(),
            first_with_prefix(views(lines@), prefix@, i as int) is None,
        decreases lines.len() - i,
    {
        assert(views(lines@)[i as int] == lines[i as int]@);
        if starts_with(lines[i].as_str(), prefix) {
            proof {
                lemma_first_with_prefix_found(views(lines@), prefix@, i as int, lines.len() as int);
            }
            return Some(&lines[i]);
        }
        i += 1;
    }
    None
}

/// The list with every string of `more` added that it does not hold yet.
pub open spec fn union(acc: Seq<Seq<char>>, more: Seq<Seq<char>>) -> Seq<Seq<char>>
    decreases more.len(),
{
    if more.len() == 0 {
        acc
    } else {
        let u = union(acc, more.drop_last());
        if u.contains(more.last()) {
            u
        } else {
            u.push(more.last())
        }
    }
}

/// Adds to `acc` every string of `more` that it does not hold yet.
pub fn union_into(acc: &mut Vec<String>, more: &[String])
    ensures
        views(final(acc)@) == union(views(old(acc)@), views(more@)),
{
    let ghost start = views(acc@);
    let ghost items = views(more@);
    let mut i: usize = 0;
    while i < more.len()
        invariant
            i <= more.len(),
            items == views(more@),
            views(acc@) == union(start, items.take(i as int)),
        decreases more.len() - i,
    {
        proof {
            assert(items.take(i + 1).drop_last() =~= items.take(i as int));
            assert(items.take(i + 1).last() == more[i as int]@);
        }
        if !contains(acc, more[i].as_str()) {
            let ghost before = views(acc@);
            acc.push(more[i].clone());
            assert(views(acc@) =~= before.push(more[i as int]@));
        }
        i += 1;
    }
    assert(items.take(more.len() as int) =~= items);
}

} // verus!
