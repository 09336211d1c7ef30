//! Texts as sequences of characters: leading whitespace, prefixes and
//! occurrences, with the executable searches that decide them.

use vstd::prelude::*;

verus! {

/// Whether `c` counts as whitespace, as `char::is_whitespace` decides it.
pub uninterp spec fn is_white_space(c: char) -> bool;

/// `char::is_whitespace` of std: its answer is what `is_white_space` stands for.
pub assume_specification[ char::is_whitespace ](c: char) -> (result: bool)
    ensures
        result == is_white_space(c),
;

/// The upper-case form that `str::to_uppercase` gives to a text.
pub uninterp spec fn uppercase(s: Seq<char>) -> Seq<char>;

/// `str::to_uppercase` of std: the new string is what `uppercase` stands for.
pub assume_specification[ str::to_uppercase ](s: &str) -> (result: String)
    ensures
        result@ == uppercase(s@),
;

/// How many whitespace characters stand at the start of `s`.
pub open spec fn leading_white_space(s: Seq<char>) -> nat
    decreases s.len(),
{
    if s.len() > 0 && is_white_space(s[0]) {
        1 + leading_white_space(s.drop_first())
    } else {
        0
    }
}

/// `s` without its leading whitespace.
pub open spec fn trim_start(s: Seq<char>) -> Seq<char> {
    s.skip(leading_white_space(s) as int)
}

/// Whether `s` begins with `prefix`.
pub open spec fn starts_with(s: Seq<char>, prefix: Seq<char>) -> bool {
    prefix.len() <= s.len() && s.take(prefix.len() as int) == prefix
}

/// Whether `part` stands in `s` at position `at`.
pub open spec fn occurs_at(s: Seq<char>, part: Seq<char>, at: int) -> bool {
    0 <= at && at + part.len() <= s.len() && s.subrange(at, at + part.len()) == part
}

/// Whether `part` stands somewhere in `s`.
pub open spec fn contains(s: Seq<char>, part: Seq<char>) -> bool {
    exists|at: int| occurs_at(s, part, at)
}

/// The count of leading whitespace is the one position up to which every
/// character is whitespace and at which the text ends or goes on with
/// something else.
pub proof fn lemma_leading_white_space_is(s: Seq<char>, k: int)
    requires
        0 <= k <= s.len(),
        forall|i: int| 0 <= i < k ==> is_white_space(#[trigger] s[i]),
        k == s.len() || !is_white_space(s[k]),
    ensures
        leading_white_space(s) == k,
    decreases k,
{
    if k > 0 {
        lemma_leading_white_space_is(s.drop_first(), k - 1);
    }
}

/// The leading whitespace lies within the text, is whitespace throughout, and
/// stops before a character that is none.
pub proof fn lemma_leading_white_space(s: Seq<char>)
    ensures
        leading_white_space(s) <= s.len(),
        forall|i: int| 0 <= i < leading_white_space(s) ==> is_white_space(#[trigger] s[i]),
        leading_white_space(s) < s.len() ==> !is_white_space(s[leading_white_space(s) as int]),
    decreases s.len(),
{
    if s.len() > 0 && is_white_space(s[0]) {
        let rest = s.drop_first();
        lemma_leading_white_space(rest);
        assert forall|i: int| 0 <= i < leading_white_space(s) implies is_white_space(
            #[trigger] s[i],
        ) by {
            if i > 0 {
                assert(s[i] == rest[i - 1]);
            }
        }
    }
}

/// The text of an optional string.
pub open spec fn optional_text(s: Option<String>) -> Option<Seq<char>> {
    match s {
        Some(s) => Some(s@),
        None => None,
    }
}

/// The characters of `s`, one by one.
pub fn chars_of(s: &str) -> (result: Vec<char>)
    ensures
        result@ == s@,
{
    let mut out: Vec<char> = Vec::new();
    for c in it: s.chars()
        invariant
            out@ == it.seq().take(it.index()),
            it.seq() == s@,
    {
        out.push(c);
    }
    out
}

/// The position at which the text from `from` on stops being whitespace.
pub fn skip_white_space(chars: &Vec<char>, from: usize) -> (result: usize)
    requires
        from <= chars.len(),
    ensures
        from <= result <= chars.len(),
        result == from + leading_white_space(chars@.skip(from as int)),
        chars@.skip(result as int) == trim_start(chars@.skip(from as int)),
{
    let mut k: usize = from;
    while k < chars.len() && chars[k].is_whitespace()
        invariant
            from <= k <= chars.len(),
            forall|i: int| from <= i < k ==> is_white_space(#[trigger] chars@[i]),
        decreases chars.len() - k,
    {
        k += 1;
    }
    proof {
        lemma_leading_white_space_is(chars@.skip(from as int), k - from);
    }
    k
}

/// Whether the text from `from` on begins with `prefix`.
pub fn starts_with_at(chars: &Vec<char>, from: usize, prefix: &Vec<char>) -> (result: bool)
    requires
        from <= chars.len(),
    ensures
        result == starts_with(chars@.skip(from as int), prefix@),
        result ==> from + prefix.len() <= chars.len(),
{
    if prefix.len() > chars.len() - from {
        return false;
    }
    let ghost rest = chars@.skip(from as int);
    let mut k: usize = 0;
    while k < prefix.len()
        invariant
            from + prefix.len() <= chars.len(),
            k <= prefix.len(),
            rest == chars@.skip(from as int),
            forall|i: int| 0 <= i < k ==> rest[i] == prefix@[i],
        decreases prefix.len() - k,
    {
        if chars[from + k] != prefix[k] {
            return false;
        }
        k += 1;
    }
    proof {
        assert(rest.take(prefix.len() as int) =~= prefix@);
    }
    true
}

/// Whether two texts are the same.
pub fn same_chars(a: &Vec<char>, b: &Vec<char>) -> (result: bool)
    ensures
        result == (a@ == b@),
{
    if a.len() != b.len() {
        return false;
    }
    let same = starts_with_at(a, 0, b);
    proof {
        assert(a@.take(a.len() as int) =~= a@);
    }
    same
}

/// Whether `part` stands somewhere in `chars`.
pub fn contains_chars(chars: &Vec<char>, part: &Vec<char>) -> (result: bool)
    ensures
        result == contains(chars@, part@),
{
    if part.len() > chars.len() {
        return false;
    }
    let last: usize = chars.len() - part.len();
    let mut at: usize = 0;
    loop
        invariant
            last == chars.len() - part.len(),
            at <= last,
            forall|i: int| 0 <= i < at ==> !occurs_at(chars@, part@, i),
        decreases last - at,
    {
        proof {
            let rest = chars@.skip(at as int);
            assert(rest.take(part.len() as int) =~= chars@.subrange(at as int, at + part.len()));
        }
        if starts_with_at(chars, at, part) {
            assert(occurs_at(chars@, part@, at as int));
            return true;
        }
        if at == last {
            return false;
        }
        at += 1;
    }
}

} // verus!
