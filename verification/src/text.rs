//! Text as sequences of characters: whitespace, trimming, searching, joining.
//!
//! Every length in this crate counts characters (Unicode scalar values), which
//! is what the view of a string holds.

use vstd::prelude::*;
use vstd::std_specs::iter::IteratorSpec;
use vstd::string::StrSliceExecFns;
use vstd::string::StringExecFns;

verus! {

broadcast use vstd::string::group_string_axioms;

/// Whether `c` has the Unicode property White_Space.
pub open spec fn is_whitespace(c: char) -> bool {
    let n = c as u32;
    ||| 0x09 <= n <= 0x0D
    ||| n == 0x20
    ||| n == 0x85
    ||| n == 0xA0
    ||| n == 0x1680
    ||| 0x2000 <= n <= 0x200A
    ||| n == 0x2028
    ||| n == 0x2029
    ||| n == 0x202F
    ||| n == 0x205F
    ||| n == 0x3000
}

/// `s` without its leading whitespace.
pub open spec fn trim_start(s: Seq<char>) -> Seq<char>
    decreases s.len(),
{
    if s.len() > 0 && is_whitespace(s.first()) {
        trim_start(s.drop_first())
    } else {
        s
    }
}

/// `s` without its trailing whitespace.
pub open spec fn trim_end(s: Seq<char>) -> Seq<char>
    decreases s.len(),
{
    if s.len() > 0 && is_whitespace(s.last()) {
        trim_end(s.drop_last())
    } else {
        s
    }
}

/// `s` without its leading and trailing whitespace.
pub open spec fn trimmed(s: Seq<char>) -> Seq<char> {
    trim_end(trim_start(s))
}

/// Whether `needle` stands in `haystack` at position `at`.
pub open spec fn occurs_at(haystack: Seq<char>, needle: Seq<char>, at: int) -> bool {
    &&& 0 <= at
    &&& at + needle.len() <= haystack.len()
    &&& haystack.subrange(at, at + needle.len()) == needle
}

/// Whether `needle` stands somewhere in `haystack`.
pub open spec fn has_substring(haystack: Seq<char>, needle: Seq<char>) -> bool {
    exists|at: int| #[trigger] occurs_at(haystack, needle, at)
}

/// The `parts` in order, with `separator` between each two neighbours.
pub open spec fn joined(parts: Seq<Seq<char>>, separator: Seq<char>) -> Seq<char>
    decreases parts.len(),
{
    if parts.len() == 0 {
        Seq::empty()
    } else if parts.len() == 1 {
        parts[0]
    } else {
        joined(parts.drop_last(), separator) + separator + parts.last()
    }
}

/// Tells whether `c` is whitespace.
pub fn char_is_whitespace(c: char) -> (b: bool)
    ensures
        b == is_whitespace(c),
{
    let n: u32 = c as u32;
    (0x09 <= n && n <= 0x0D) || n == 0x20 || n == 0x85 || n == 0xA0 || n == 0x1680 || (0x2000 <= n
        && n <= 0x200A) || n == 0x2028 || n == 0x2029 || n == 0x202F || n == 0x205F || n == 0x3000
}

/// The characters of `s`, in order.
pub fn chars_of(s: &str) -> (chars: Vec<char>)
    ensures
        chars@ == s@,
{
    let mut chars: Vec<char> = Vec::new();
    let mut rest = s.chars();
    loop
        invariant
            chars@ + rest.remaining() == s@,
        ensures
            chars@ == s@,
        decreases s@.len() - chars@.len(),
    {
        match rest.next() {
            Some(c) => {
                chars.push(c);
            },
            None => {
                break ;
            },
        }
    }
    chars
}

/// The number of leading whitespace characters of `chars`.
fn leading_whitespace(chars: &Vec<char>) -> (start: usize)
    ensures
        start <= chars.len(),
        trim_start(chars@) == chars@.skip(start as int),
{
    let n: usize = chars.len();
    let mut start: usize = 0;
    proof {
        assert(chars@.skip(0) =~= chars@);
    }
    while start < n
        invariant
            n == chars.len(),
            start <= n,
            trim_start(chars@) == trim_start(chars@.skip(start as int)),
        ensures
            start <= n,
            trim_start(chars@) == chars@.skip(start as int),
        decreases n - start,
    {
        if !char_is_whitespace(chars[start]) {
            break ;
        }
        proof {
            assert(chars@.skip(start as int).drop_first() =~= chars@.skip(start + 1));
        }
        start += 1;
    }
    start
}

/// The position just behind the last character of `chars` that is no
/// whitespace, looking no further back than `start`.
fn trailing_bound(chars: &Vec<char>, start: usize) -> (end: usize)
    requires
        start <= chars.len(),
    ensures
        start <= end <= chars.len(),
        trim_end(chars@.skip(start as int)) == chars@.subrange(start as int, end as int),
{
    let mut end: usize = chars.len();
    proof {
        assert(chars@.skip(start as int) =~= chars@.subrange(start as int, end as int));
    }
    while end > start
        invariant
            start <= end <= chars.len(),
            trim_end(chars@.skip(start as int)) == trim_end(
                chars@.subrange(start as int, end as int),
            ),
        ensures
            start <= end <= chars.len(),
            trim_end(chars@.skip(start as int)) == chars@.subrange(start as int, end as int),
        decreases end - start,
    {
        if !char_is_whitespace(chars[end - 1]) {
            break ;
        }
        proof {
            assert(chars@.subrange(start as int, end as int).drop_last() =~= chars@.subrange(
                start as int,
                end - 1,
            ));
        }
        end -= 1;
    }
    end
}

/// `s` without its leading and trailing whitespace.
pub fn trim(s: &str) -> (t: &str)
    ensures
        t@ == trimmed(s@),
{
    let chars = chars_of(s);
    let start: usize = leading_whitespace(&chars);
    let end: usize = trailing_bound(&chars, start);
    s.substring_char(start, end)
}

/// Tells whether `needle` stands in `haystack` at position `at`.
fn matches_at(haystack: &Vec<char>, needle: &Vec<char>, at: usize) -> (m: bool)
    requires
        at + needle.len() <= haystack.len(),
    ensures
        m == occurs_at(haystack@, needle@, at as int),
{
    let mut j: usize = 0;
    while j < needle.len()
        invariant
            j <= needle.len(),
            at + needle.len() <= haystack.len(),
            forall|k: int| 0 <= k < j ==> haystack@[at + k] == needle@[k],
        decreases needle.len() - j,
    {
        if haystack[at + j] != needle[j] {
            proof {
                let window = haystack@.subrange(at as int, at + needle@.len());
                assert(window[j as int] != needle@[j as int]);
            }
            return false;
        }
        j += 1;
    }
    proof {
        assert(haystack@.subrange(at as int, at + needle@.len()) =~= needle@);
    }
    true
}

/// Tells whether `needle` stands somewhere in `haystack`.
fn chars_contain(haystack: &Vec<char>, needle: &Vec<char>) -> (found: bool)
    ensures
        found == has_substring(haystack@, needle@),
{
    if needle.len() > haystack.len() {
        return false;
    }
    if needle.len() == 0 {
        proof {
            assert(haystack@.subrange(0, 0) =~= needle@);
            assert(occurs_at(haystack@, needle@, 0));
        }
        return true;
    }
    let mut at: usize = 0;
    while haystack.len() - at >= needle.len()
        invariant
            0 < needle.len() <= haystack.len(),
            at <= haystack.len(),
            forall|k: int| 0 <= k < at ==> !occurs_at(haystack@, needle@, k),
        decreases haystack.len() - at,
    {
        if matches_at(haystack, needle, at) {
            return true;
        }
        at += 1;
    }
    false
}

/// Tells whether `needle` stands somewhere in `haystack`.
pub fn contains(haystack: &str, needle: &str) -> (found: bool)
    ensures
        found == has_substring(haystack@, needle@),
{
    let hay = chars_of(haystack);
    let pat = chars_of(needle);
    chars_contain(&hay, &pat)
}

/// Tells whether `s` begins with `prefix`.
pub fn starts_with(s: &str, prefix: &str) -> (b: bool)
    ensures
        b == prefix@.is_prefix_of(s@),
{
    let hay = chars_of(s);
    let pat = chars_of(prefix);
    if pat.len() > hay.len() {
        return false;
    }
    matches_at(&hay, &pat, 0)
}

/// The `parts` in order, with `separator` between each two neighbours.
pub fn join(parts: &Vec<String>, separator: &str) -> (text: String)
    ensures
        text@ == joined(parts.deep_view(), separator@),
{
    let mut text = String::new();
    let mut i: usize = 0;
    while i < parts.len()
        invariant
            i <= parts.len(),
            text@ == joined(parts.deep_view().take(i as int), separator@),
        decreases parts.len() - i,
    {
        proof {
            let done = parts.deep_view().take(i as int);
            let next = parts.deep_view().take(i + 1);
            assert(next.drop_last() =~= done);
            assert(next.last() == parts@[i as int]@);
        }
        if i > 0 {
            text.append(separator);
        }
        text.append(parts[i].as_str());
        i += 1;
    }
    proof {
        assert(parts.deep_view().take(parts.len() as int) =~= parts.deep_view());
    }
    text
}

/// What `trim_start` leaves is the end of `s`, and begins with no whitespace.
pub proof fn trim_start_is_tight(s: Seq<char>)
    ensures
        trim_start(s).len() <= s.len(),
        trim_start(s) == s.skip(s.len() - trim_start(s).len()),
        trim_start(s).len() > 0 ==> !is_whitespace(trim_start(s).first()),
    decreases s.len(),
{
    if s.len() > 0 && is_whitespace(s.first()) {
        let rest = s.drop_first();
        trim_start_is_tight(rest);
        assert(rest.skip(rest.len() - trim_start(rest).len()) =~= s.skip(
            s.len() - trim_start(rest).len(),
        ));
    } else {
        assert(s.skip(0) =~= s);
    }
}

/// What `trim_end` leaves is the beginning of `s`, and ends with no
/// whitespace. Where `s` begins with no whitespace, something is left.
pub proof fn trim_end_is_tight(s: Seq<char>)
    ensures
        trim_end(s).len() <= s.len(),
        trim_end(s) == s.take(trim_end(s).len() as int),
        trim_end(s).len() > 0 ==> !is_whitespace(trim_end(s).last()),
        s.len() > 0 && !is_whitespace(s.first()) ==> trim_end(s).len() > 0,
    decreases s.len(),
{
    if s.len() > 0 && is_whitespace(s.last()) {
        let rest = s.drop_last();
        trim_end_is_tight(rest);
        assert(rest.take(trim_end(rest).len() as int) =~= s.take(trim_end(rest).len() as int));
    } else {
        assert(s.take(s.len() as int) =~= s);
    }
}

/// Trimmed text is a piece of the text it was trimmed from and has no
/// whitespace at either end, so that trimming it again changes nothing.
pub proof fn trimmed_is_tight(s: Seq<char>)
    ensures
        trimmed(s).len() <= s.len(),
        trimmed(s).len() > 0 ==> !is_whitespace(trimmed(s).first()) && !is_whitespace(
            trimmed(s).last(),
        ),
        trimmed(trimmed(s)) == trimmed(s),
{
    let inner = trim_start(s);
    let both = trim_end(inner);
    trim_start_is_tight(s);
    trim_end_is_tight(inner);
    if both.len() > 0 {
        assert(both.first() == inner.first());
    }
}

} // verus!
