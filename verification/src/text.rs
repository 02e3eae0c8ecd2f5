//! Text, character by character.

use vstd::prelude::*;
use vstd::string::*;

verus! {

/// The characters with the Unicode property White_Space.
pub open spec fn white(c: char) -> bool {
    ||| '\u{9}' <= c <= '\u{d}'
    ||| c == ' '
    ||| c == '\u{85}'
    ||| c == '\u{a0}'
    ||| c == '\u{1680}'
    ||| '\u{2000}' <= c <= '\u{200a}'
    ||| c == '\u{2028}'
    ||| c == '\u{2029}'
    ||| c == '\u{202f}'
    ||| c == '\u{205f}'
    ||| c == '\u{3000}'
}

/// The decimal digits of ASCII.
pub open spec fn digit(c: char) -> bool {
    '0' <= c <= '9'
}

/// `s` without the white space it starts with.
pub open spec fn trim_start(s: Seq<char>) -> Seq<char>
    decreases s.len(),
{
    if s.len() > 0 && white(s.first()) {
        trim_start(s.skip(1))
    } else {
        s
    }
}

/// `s` without the white space it ends with.
pub open spec fn trim_end(s: Seq<char>) -> Seq<char>
    decreases s.len(),
{
    if s.len() > 0 && white(s.last()) {
        trim_end(s.drop_last())
    } else {
        s
    }
}

/// `s` without the white space around it.
pub open spec fn trim(s: Seq<char>) -> Seq<char> {
    trim_end(trim_start(s))
}

/// `s` without the slashes it ends with.
pub open spec fn trim_slashes(s: Seq<char>) -> Seq<char>
    decreases s.len(),
{
    if s.len() > 0 && s.last() == '/' {
        trim_slashes(s.drop_last())
    } else {
        s
    }
}

/// `s` starts with `prefix`.
pub open spec fn starts(s: Seq<char>, prefix: Seq<char>) -> bool {
    prefix.len() <= s.len() && s.take(prefix.len() as int) == prefix
}

/// `s` with every leading `prefix` taken off.
pub open spec fn strip_all(s: Seq<char>, prefix: Seq<char>) -> Seq<char>
    decreases s.len(),
{
    if prefix.len() > 0 && starts(s, prefix) {
        strip_all(s.skip(prefix.len() as int), prefix)
    } else {
        s
    }
}

/// `part` stands in `s` at the place `i`.
pub open spec fn stands_at(s: Seq<char>, part: Seq<char>, i: int) -> bool {
    0 <= i && i + part.len() <= s.len() && s.subrange(i, i + part.len()) == part
}

/// `part` stands somewhere in `s`.
pub open spec fn holds(s: Seq<char>, part: Seq<char>) -> bool {
    exists|i: int| stands_at(s, part, i)
}

/// Whether a character is white space.
pub fn is_white(c: char) -> (r: bool)
    ensures
        r == white(c),
{
    ('\u{9}' <= c && c <= '\u{d}') || c == ' ' || c == '\u{85}' || c == '\u{a0}' || c == '\u{1680}'
        || ('\u{2000}' <= c && c <= '\u{200a}') || c == '\u{2028}' || c == '\u{2029}' || c
        == '\u{202f}' || c == '\u{205f}' || c == '\u{3000}'
}

/// The characters of `s`.
pub fn characters(s: &str) -> (r: Vec<char>)
    ensures
        r@ == s@,
{
    let mut out: Vec<char> = Vec::new();
    for c in iter: s.chars()
        invariant
            out@ == iter.seq().take(iter.index() as int),
            iter.seq() == s@,
    {
        out.push(c);
    }
    out
}

/// Whether two texts are equal.
pub fn same(a: &str, b: &str) -> (r: bool)
    ensures
        r == (a@ == b@),
{
    a.to_owned() == b.to_owned()
}

/// Two texts, one behind the other.
pub fn join(a: &str, b: &str) -> (r: String)
    ensures
        r@ == a@ + b@,
{
    let mut out = a.to_owned();
    out.append(b);
    out
}

/// Takes off the white space around `s`.
pub fn trimmed<'a>(s: &'a str) -> (r: &'a str)
    ensures
        r@ == trim(s@),
{
    let chars = characters(s);
    let mut low: usize = 0;
    assert(s@.skip(0) =~= s@);
    while low < chars.len() && is_white(chars[low])
        invariant
            chars@ == s@,
            low <= chars.len(),
            trim_start(s@) == trim_start(s@.skip(low as int)),
        decreases chars.len() - low,
    {
        assert(s@.skip(low as int).skip(1) =~= s@.skip(low as int + 1));
        low = low + 1;
    }
    let mut high: usize = chars.len();
    assert(s@.subrange(low as int, high as int) =~= s@.skip(low as int));
    while low < high && is_white(chars[high - 1])
        invariant
            chars@ == s@,
            low <= high <= chars.len(),
            trim(s@) == trim_end(s@.subrange(low as int, high as int)),
        decreases high - low,
    {
        assert(s@.subrange(low as int, high as int).drop_last() =~= s@.subrange(
            low as int,
            high - 1,
        ));
        high = high - 1;
    }
    s.substring_char(low, high)
}

/// Takes off the slashes that `s` ends with.
pub fn without_slashes<'a>(s: &'a str) -> (r: &'a str)
    ensures
        r@ == trim_slashes(s@),
{
    let chars = characters(s);
    let mut high: usize = chars.len();
    assert(s@.subrange(0, high as int) =~= s@);
    while 0 < high && chars[high - 1] == '/'
        invariant
            chars@ == s@,
            high <= chars.len(),
            trim_slashes(s@) == trim_slashes(s@.subrange(0, high as int)),
        decreases high,
    {
        assert(s@.subrange(0, high as int).drop_last() =~= s@.subrange(0, high - 1));
        high = high - 1;
    }
    s.substring_char(0, high)
}

/// Whether `part` stands in `s` at the place `at`.
fn found_at(s: &Vec<char>, part: &Vec<char>, at: usize) -> (r: bool)
    requires
        at <= s.len(),
    ensures
        r == stands_at(s@, part@, at as int),
{
    if s.len() - at < part.len() {
        return false;
    }
    let mut i: usize = 0;
    while i < part.len()
        invariant
            i <= part.len(),
            at + part.len() <= s.len(),
            forall|j: int| 0 <= j < i ==> s[at + j] == part[j],
        decreases part.len() - i,
    {
        if s[at + i] != part[i] {
            assert(s@.subrange(at as int, at + part.len())[i as int] != part@[i as int]);
            return false;
        }
        i = i + 1;
    }
    assert(s@.subrange(at as int, at + part.len()) =~= part@);
    true
}

/// What follows `prefix` in `s`, where `s` starts with it.
pub fn after_prefix<'a>(s: &'a str, prefix: &str) -> (r: Option<&'a str>)
    ensures
        match r {
            Some(rest) => starts(s@, prefix@) && rest@ == s@.skip(prefix@.len() as int),
            None => !starts(s@, prefix@),
        },
{
    let chars = characters(s);
    let wanted = characters(prefix);
    assert(prefix@.len() <= s@.len() ==> s@.take(prefix@.len() as int) =~= s@.subrange(
        0,
        prefix@.len() as int,
    ));
    if found_at(&chars, &wanted, 0) {
        assert(s@.subrange(prefix@.len() as int, s@.len() as int) =~= s@.skip(
            prefix@.len() as int,
        ));
        Some(s.substring_char(wanted.len(), chars.len()))
    } else {
        None
    }
}

/// Takes every leading `prefix` off `s`.
pub fn without_prefixes<'a>(s: &'a str, prefix: &str) -> (r: &'a str)
    ensures
        r@ == strip_all(s@, prefix@),
{
    let mut rest = s;
    let size = prefix.unicode_len();
    if size == 0 {
        return rest;
    }
    loop
        invariant
            size == prefix@.len(),
            size > 0,
            strip_all(s@, prefix@) == strip_all(rest@, prefix@),
        decreases rest@.len(),
    {
        match after_prefix(rest, prefix) {
            Some(shorter) => {
                rest = shorter;
            },
            None => {
                return rest;
            },
        }
    }
}

/// Whether `part` stands somewhere in `s`.
pub fn contains(s: &str, part: &str) -> (r: bool)
    ensures
        r == holds(s@, part@),
{
    let chars = characters(s);
    let wanted = characters(part);
    let mut i: usize = 0;
    while i < chars.len()
        invariant
            chars@ == s@,
            wanted@ == part@,
            i <= chars.len(),
            forall|j: int| 0 <= j < i ==> !stands_at(s@, part@, j),
        decreases chars.len() - i,
    {
        if found_at(&chars, &wanted, i) {
            return true;
        }
        i = i + 1;
    }
    found_at(&chars, &wanted, i)
}

/// White space is what Unicode calls so, by the code points.
pub proof fn white_space_is_unicodes(c: char)
    ensures
        white(c) <==> {
            let code = c as u32;
            ||| 0x9 <= code <= 0xd
            ||| code == 0x20 || code == 0x85 || code == 0xa0 || code == 0x1680
            ||| 0x2000 <= code <= 0x200a
            ||| code == 0x2028 || code == 0x2029 || code == 0x202f || code == 0x205f
            ||| code == 0x3000
        },
        digit(c) <==> 0x30 <= c as u32 <= 0x39,
{
}

/// All characters are white space.
pub open spec fn blank(s: Seq<char>) -> bool {
    forall|i: int| 0 <= i < s.len() ==> white(#[trigger] s[i])
}

/// All characters are slashes.
pub open spec fn slashes(s: Seq<char>) -> bool {
    forall|i: int| 0 <= i < s.len() ==> #[trigger] s[i] == '/'
}

/// White space in front is taken off, and nothing else.
proof fn trim_start_takes(a: Seq<char>, s: Seq<char>)
    requires
        blank(a),
        s.len() > 0 ==> !white(s.first()),
    ensures
        trim_start(a + s) == s,
    decreases a.len(),
{
    if a.len() == 0 {
        assert(a + s =~= s);
    } else {
        assert((a + s).first() == a[0]);
        assert((a + s).skip(1) =~= a.skip(1) + s);
        assert(blank(a.skip(1))) by {
            assert forall|i: int| 0 <= i < a.skip(1).len() implies white(
                #[trigger] a.skip(1)[i],
            ) by {
                assert(a.skip(1)[i] == a[i + 1]);
            }
        }
        trim_start_takes(a.skip(1), s);
    }
}

/// White space behind is taken off, and nothing else.
proof fn trim_end_takes(s: Seq<char>, b: Seq<char>)
    requires
        blank(b),
        s.len() > 0 ==> !white(s.last()),
    ensures
        trim_end(s + b) == s,
    decreases b.len(),
{
    if b.len() == 0 {
        assert(s + b =~= s);
    } else {
        assert((s + b).last() == b[b.len() - 1]);
        assert((s + b).drop_last() =~= s + b.drop_last());
        assert(blank(b.drop_last())) by {
            assert forall|i: int| 0 <= i < b.drop_last().len() implies white(
                #[trigger] b.drop_last()[i],
            ) by {
                assert(b.drop_last()[i] == b[i]);
            }
        }
        trim_end_takes(s, b.drop_last());
    }
}

/// Trimming takes off the white space on both sides, and nothing else.
pub proof fn trimming_takes_white_space(a: Seq<char>, s: Seq<char>, b: Seq<char>)
    requires
        blank(a),
        blank(b),
        s.len() > 0,
        !white(s.first()),
        !white(s.last()),
    ensures
        trim(a + s + b) == s,
{
    assert(a + s + b =~= a + (s + b));
    assert((s + b).first() == s.first());
    trim_start_takes(a, s + b);
    trim_end_takes(s, b);
}

/// The slashes behind are taken off, and nothing else.
pub proof fn slashes_are_taken_off(s: Seq<char>, b: Seq<char>)
    requires
        slashes(b),
        s.len() > 0 ==> s.last() != '/',
    ensures
        trim_slashes(s + b) == s,
    decreases b.len(),
{
    if b.len() == 0 {
        assert(s + b =~= s);
    } else {
        assert((s + b).last() == b[b.len() - 1]);
        assert((s + b).drop_last() =~= s + b.drop_last());
        assert(slashes(b.drop_last())) by {
            assert forall|i: int| 0 <= i < b.drop_last().len() implies #[trigger] b.drop_last()[i]
                == '/' by {
                assert(b.drop_last()[i] == b[i]);
            }
        }
        slashes_are_taken_off(s, b.drop_last());
    }
}

/// A text starts with a prefix exactly if it is the prefix and something behind it.
pub proof fn prefixes_stand_in_front(s: Seq<char>, prefix: Seq<char>)
    ensures
        starts(prefix + s, prefix),
        starts(s, prefix) <==> exists|rest: Seq<char>| s == prefix + rest,
{
    assert((prefix + s).take(prefix.len() as int) =~= prefix);
    if starts(s, prefix) {
        assert(s =~= prefix + s.skip(prefix.len() as int));
    }
    if exists|rest: Seq<char>| s == prefix + rest {
        let rest = choose|rest: Seq<char>| s == prefix + rest;
        assert(s.take(prefix.len() as int) =~= prefix);
    }
}

/// Every leading prefix is taken off, one by one, until there is none.
pub proof fn prefixes_are_taken_off(s: Seq<char>, prefix: Seq<char>)
    requires
        prefix.len() > 0,
    ensures
        strip_all(prefix + s, prefix) == strip_all(s, prefix),
        !starts(s, prefix) ==> strip_all(s, prefix) == s,
        !starts(strip_all(s, prefix), prefix),
    decreases s.len(),
{
    prefixes_stand_in_front(s, prefix);
    assert((prefix + s).skip(prefix.len() as int) =~= s);
    if starts(s, prefix) {
        prefixes_are_taken_off(s.skip(prefix.len() as int), prefix);
    }
}

/// A text holds a part exactly if it is the part and something on both sides of it.
pub proof fn parts_stand_between(s: Seq<char>, part: Seq<char>)
    ensures
        holds(s, part) <==> exists|a: Seq<char>, b: Seq<char>| s == #[trigger] ((a + part) + b),
{
    if holds(s, part) {
        let i = choose|i: int| stands_at(s, part, i);
        let a = s.take(i);
        let b = s.skip(i + part.len());
        assert(s =~= (a + part) + b) by {
            assert forall|k: int| 0 <= k < s.len() implies s[k] == ((a + part) + b)[k] by {
                if i <= k < i + part.len() {
                    assert(s.subrange(i, i + part.len())[k - i] == part[k - i]);
                }
            }
        }
    }
    if exists|a: Seq<char>, b: Seq<char>| s == #[trigger] ((a + part) + b) {
        let (a, b) = choose|a: Seq<char>, b: Seq<char>| s == #[trigger] ((a + part) + b);
        assert(s.subrange(a.len() as int, (a.len() + part.len()) as int) =~= part);
        assert(stands_at(s, part, a.len() as int));
    }
}

/// White space alone is trimmed to nothing.
pub proof fn blanks_are_trimmed_away(s: Seq<char>)
    requires
        blank(s),
    ensures
        trim(s) == Seq::<char>::empty(),
{
    trim_start_takes(s, Seq::empty());
    assert(s + Seq::<char>::empty() =~= s);
}

} // verus!
