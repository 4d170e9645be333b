//! Character-level text operations and their mathematical meaning.
//!
//! A string is seen as its sequence of characters. Every function here that
//! takes `&str` states its result over those sequences.

use vstd::prelude::*;

verus! {

/// `String::push` appends one character. The contract claims exactly that.
pub assume_specification[ std::string::String::push ](s: &mut std::string::String, c: char)
    ensures
        final(s)@ == old(s)@.push(c),
;

/// A character with the Unicode `White_Space` property.
pub open spec fn is_space(c: char) -> bool {
    let n = c as u32;
    ||| 0x09 <= n <= 0x0d
    ||| n == 0x20
    ||| n == 0x85
    ||| n == 0xa0
    ||| n == 0x1680
    ||| 0x2000 <= n <= 0x200a
    ||| n == 0x2028
    ||| n == 0x2029
    ||| n == 0x202f
    ||| n == 0x205f
    ||| n == 0x3000
}

/// `s` without its leading white space.
pub open spec fn trimmed_start(s: Seq<char>) -> Seq<char>
    decreases s.len(),
{
    if s.len() > 0 && is_space(s[0]) {
        trimmed_start(s.drop_first())
    } else {
        s
    }
}

/// `s` without its trailing white space.
pub open spec fn trimmed_end(s: Seq<char>) -> Seq<char>
    decreases s.len(),
{
    if s.len() > 0 && is_space(s.last()) {
        trimmed_end(s.drop_last())
    } else {
        s
    }
}

/// `s` without leading and trailing white space.
pub open spec fn trimmed(s: Seq<char>) -> Seq<char> {
    trimmed_end(trimmed_start(s))
}

/// `s` holds nothing but white space.
pub open spec fn is_blank(s: Seq<char>) -> bool {
    trimmed(s).len() == 0
}

/// `s` without the trailing characters equal to `c`.
pub open spec fn without_trailing(s: Seq<char>, c: char) -> Seq<char>
    decreases s.len(),
{
    if s.len() > 0 && s.last() == c {
        without_trailing(s.drop_last(), c)
    } else {
        s
    }
}

/// `pattern` stands in `s` at position `i`.
pub open spec fn occurs_at<T>(s: Seq<T>, pattern: Seq<T>, i: int) -> bool {
    &&& 0 <= i
    &&& i + pattern.len() <= s.len()
    &&& s.subrange(i, i + pattern.len()) == pattern
}

/// `pattern` stands somewhere in `s`.
pub open spec fn occurs<T>(s: Seq<T>, pattern: Seq<T>) -> bool {
    exists|i: int| occurs_at(s, pattern, i)
}

/// The first position at or after `from` at which `pattern` stands in `s`.
pub open spec fn position_from<T>(s: Seq<T>, pattern: Seq<T>, from: int) -> Option<int>
    decreases s.len() - from + 1,
{
    if from < 0 || from + pattern.len() > s.len() {
        None
    } else if occurs_at(s, pattern, from) {
        Some(from)
    } else {
        position_from(s, pattern, from + 1)
    }
}

/// The first position at which `pattern` stands in `s`.
pub open spec fn position<T>(s: Seq<T>, pattern: Seq<T>) -> Option<int> {
    position_from(s, pattern, 0)
}

/// `position_from` gives the least position that qualifies, and `None` exactly
/// when there is none.
pub proof fn position_is_first<T>(s: Seq<T>, pattern: Seq<T>, from: int)
    requires
        0 <= from,
    ensures
        match position_from(s, pattern, from) {
            Some(p) => {
                &&& from <= p
                &&& occurs_at(s, pattern, p)
                &&& forall|j: int| from <= j < p ==> !occurs_at(s, pattern, j)
            },
            None => forall|j: int| from <= j ==> !occurs_at(s, pattern, j),
        },
    decreases s.len() - from + 1,
{
    if from + pattern.len() <= s.len() && !occurs_at(s, pattern, from) {
        position_is_first(s, pattern, from + 1);
    }
}

/// The rest of `s` after `prefix`, if `s` begins with it.
pub open spec fn stripped_prefix(s: Seq<char>, prefix: Seq<char>) -> Option<Seq<char>> {
    if prefix.len() <= s.len() && s.subrange(0, prefix.len() as int) == prefix {
        Some(s.subrange(prefix.len() as int, s.len() as int))
    } else {
        None
    }
}

/// The lower-case form of an ASCII letter; every other character itself.
pub open spec fn ascii_lower(c: char) -> char {
    if 'A' <= c <= 'Z' {
        (c as u8 + 32) as char
    } else {
        c
    }
}

/// The two texts agree up to the case of ASCII letters.
pub open spec fn same_ignoring_ascii_case(a: Seq<char>, b: Seq<char>) -> bool {
    &&& a.len() == b.len()
    &&& forall|i: int| 0 <= i < a.len() ==> ascii_lower(#[trigger] a[i]) == ascii_lower(b[i])
}

/// The decimal digit of `d`, for `d` below ten.
pub open spec fn digit(d: nat) -> char {
    ('0' as u8 + d) as char
}

/// The decimal numeral of `n`.
pub open spec fn numeral(n: nat) -> Seq<char>
    decreases n,
{
    if n < 10 {
        seq![digit(n)]
    } else {
        numeral(n / 10).push(digit(n % 10))
    }
}

/// The decimal numeral of `n`, with a minus sign where it is negative.
pub open spec fn signed_numeral(n: int) -> Seq<char> {
    if n < 0 {
        seq!['-'] + numeral((-n) as nat)
    } else {
        numeral(n as nat)
    }
}

/// The parts of `parts` with `separator` between neighbours.
pub open spec fn joined(parts: Seq<Seq<char>>, separator: Seq<char>) -> Seq<char>
    decreases parts.len(),
{
    if parts.len() == 0 {
        seq![]
    } else if parts.len() == 1 {
        parts[0]
    } else {
        joined(parts.drop_last(), separator) + separator + parts.last()
    }
}

/// `s` comes before `t` in the order of character codes, first difference first.
pub open spec fn precedes(s: Seq<char>, t: Seq<char>) -> bool
    decreases s.len(),
{
    if t.len() == 0 {
        false
    } else if s.len() == 0 {
        true
    } else if s[0] == t[0] {
        precedes(s.drop_first(), t.drop_first())
    } else {
        s[0] < t[0]
    }
}

/// The characters of `s`.
pub fn char_vec(s: &str) -> (chars: Vec<char>)
    ensures
        chars@ == s@,
{
    let mut chars: Vec<char> = Vec::new();
    for c in it: s.chars()
        invariant
            it.seq() == s@,
            chars@ == s@.take(it.index()),
    {
        chars.push(c);
    }
    chars
}

/// The string of the characters from `from` up to `to`.
pub fn string_from(chars: &Vec<char>, from: usize, to: usize) -> (s: String)
    requires
        from <= to <= chars@.len(),
    ensures
        s@ == chars@.subrange(from as int, to as int),
{
    let mut s = String::new();
    let mut i: usize = from;
    while i < to
        invariant
            from <= i <= to <= chars@.len(),
            s@ == chars@.subrange(from as int, i as int),
        decreases to - i,
    {
        s.push(chars[i]);
        i += 1;
    }
    s
}

/// Whether the two texts are equal.
pub fn same(a: &str, b: &str) -> (equal: bool)
    ensures
        equal == (a@ == b@),
{
    a.to_owned() == b.to_owned()
}

/// Whether the text has no character.
pub fn is_empty(s: &str) -> (yes: bool)
    ensures
        yes == (s@.len() == 0),
{
    char_vec(s).len() == 0
}

/// Whether `c` has the Unicode `White_Space` property.
fn space(c: char) -> (yes: bool)
    ensures
        yes == is_space(c),
{
    let n: u32 = c as u32;
    (0x09 <= n && n <= 0x0d) || n == 0x20 || n == 0x85 || n == 0xa0 || n == 0x1680 || (0x2000 <= n
        && n <= 0x200a) || n == 0x2028 || n == 0x2029 || n == 0x202f || n == 0x205f || n == 0x3000
}

proof fn trimmed_start_skips(s: Seq<char>, k: int)
    requires
        0 <= k <= s.len(),
        forall|i: int| 0 <= i < k ==> is_space(#[trigger] s[i]),
        k < s.len() ==> !is_space(s[k]),
    ensures
        trimmed_start(s) == s.subrange(k, s.len() as int),
    decreases k,
{
    if k > 0 {
        let rest = s.drop_first();
        assert forall|i: int| 0 <= i < k - 1 implies is_space(#[trigger] rest[i]) by {
            assert(rest[i] == s[i + 1]);
        }
        assert(k < s.len() ==> rest[k - 1] == s[k]);
        trimmed_start_skips(rest, k - 1);
        assert(rest.subrange(k - 1, rest.len() as int) =~= s.subrange(k, s.len() as int));
    } else {
        assert(s.subrange(0, s.len() as int) =~= s);
    }
}

proof fn trimmed_end_skips(s: Seq<char>, k: int)
    requires
        0 <= k <= s.len(),
        forall|i: int| k <= i < s.len() ==> is_space(#[trigger] s[i]),
        k > 0 ==> !is_space(s[k - 1]),
    ensures
        trimmed_end(s) == s.subrange(0, k),
    decreases s.len() - k,
{
    if k < s.len() {
        let rest = s.drop_last();
        assert forall|i: int| k <= i < rest.len() implies is_space(#[trigger] rest[i]) by {
            assert(rest[i] == s[i]);
        }
        trimmed_end_skips(rest, k);
        assert(rest.subrange(0, k) =~= s.subrange(0, k));
    } else {
        assert(s.subrange(0, s.len() as int) =~= s);
    }
}

/// `s` without leading and trailing white space.
pub fn trim(s: &str) -> (r: String)
    ensures
        r@ == trimmed(s@),
{
    let chars = char_vec(s);
    let mut from: usize = 0;
    while from < chars.len() && space(chars[from])
        invariant
            0 <= from <= chars@.len(),
            forall|i: int| 0 <= i < from ==> is_space(#[trigger] chars@[i]),
        decreases chars@.len() - from,
    {
        from += 1;
    }
    let mut to: usize = chars.len();
    while from < to && space(chars[to - 1])
        invariant
            from <= to <= chars@.len(),
            forall|i: int| to <= i < chars@.len() ==> is_space(#[trigger] chars@[i]),
        decreases to,
    {
        to -= 1;
    }
    proof {
        let tail = chars@.subrange(from as int, chars@.len() as int);
        trimmed_start_skips(chars@, from as int);
        assert forall|i: int| to - from <= i < tail.len() implies is_space(#[trigger] tail[i]) by {
            assert(tail[i] == chars@[from + i]);
        }
        trimmed_end_skips(tail, to - from);
        assert(tail.subrange(0, to - from) =~= chars@.subrange(from as int, to as int));
    }
    string_from(&chars, from, to)
}

/// Whether `s` holds nothing but white space.
pub fn blank(s: &str) -> (yes: bool)
    ensures
        yes == is_blank(s@),
{
    is_empty(trim(s).as_str())
}

proof fn without_trailing_skips(s: Seq<char>, c: char, k: int)
    requires
        0 <= k <= s.len(),
        forall|i: int| k <= i < s.len() ==> #[trigger] s[i] == c,
        k > 0 ==> s[k - 1] != c,
    ensures
        without_trailing(s, c) == s.subrange(0, k),
    decreases s.len() - k,
{
    if k < s.len() {
        let rest = s.drop_last();
        assert forall|i: int| k <= i < rest.len() implies #[trigger] rest[i] == c by {
            assert(rest[i] == s[i]);
        }
        without_trailing_skips(rest, c, k);
        assert(rest.subrange(0, k) =~= s.subrange(0, k));
    } else {
        assert(s.subrange(0, s.len() as int) =~= s);
    }
}

/// `s` without the trailing characters equal to `c`.
pub fn trim_end_matches(s: &str, c: char) -> (r: String)
    ensures
        r@ == without_trailing(s@, c),
{
    let chars = char_vec(s);
    let mut to: usize = chars.len();
    while 0 < to && chars[to - 1] == c
        invariant
            to <= chars@.len(),
            forall|i: int| to <= i < chars@.len() ==> #[trigger] chars@[i] == c,
        decreases to,
    {
        to -= 1;
    }
    proof {
        without_trailing_skips(chars@, c, to as int);
    }
    string_from(&chars, 0, to)
}

/// Whether `pattern` stands in `chars` at position `i`.
fn stands_at(chars: &Vec<char>, pattern: &Vec<char>, i: usize) -> (yes: bool)
    requires
        i <= chars@.len(),
    ensures
        yes == occurs_at(chars@, pattern@, i as int),
{
    if chars.len() - i < pattern.len() {
        return false;
    }
    let mut k: usize = 0;
    while k < pattern.len()
        invariant
            i + pattern@.len() <= chars@.len() == chars.len(),
            k <= pattern@.len(),
            forall|j: int| 0 <= j < k ==> chars@[i + j] == #[trigger] pattern@[j],
        decreases pattern@.len() - k,
    {
        if chars[i + k] != pattern[k] {
            assert(chars@.subrange(i as int, i + pattern@.len())[k as int] != pattern@[k as int]);
            return false;
        }
        k += 1;
    }
    assert(chars@.subrange(i as int, i + pattern@.len()) =~= pattern@);
    true
}

/// The first position at or after `from` at which `pattern` stands in `chars`.
pub fn find_from(chars: &Vec<char>, pattern: &Vec<char>, from: usize) -> (r: Option<usize>)
    requires
        from <= chars@.len(),
    ensures
        match r {
            Some(p) => position_from(chars@, pattern@, from as int) == Some(p as int),
            None => position_from(chars@, pattern@, from as int) is None,
        },
{
    let mut i: usize = from;
    while pattern.len() <= chars.len() - i
        invariant
            from <= i <= chars@.len(),
            position_from(chars@, pattern@, from as int) == position_from(
                chars@,
                pattern@,
                i as int,
            ),
        decreases chars@.len() - i,
    {
        if stands_at(chars, pattern, i) {
            return Some(i);
        }
        if i == chars.len() {
            assert(chars@.subrange(i as int, i as int) =~= pattern@);
            return None;
        }
        i += 1;
    }
    None
}

/// Whether `pattern` stands somewhere in `s`.
pub fn contains(s: &str, pattern: &str) -> (yes: bool)
    ensures
        yes == occurs(s@, pattern@),
{
    let chars = char_vec(s);
    let wanted = char_vec(pattern);
    proof {
        position_is_first(s@, pattern@, 0);
    }
    find_from(&chars, &wanted, 0).is_some()
}

/// The rest of `s` after `prefix`, if `s` begins with it.
pub fn strip_prefix(s: &str, prefix: &str) -> (r: Option<String>)
    ensures
        match r {
            Some(rest) => stripped_prefix(s@, prefix@) == Some(rest@),
            None => stripped_prefix(s@, prefix@) is None,
        },
{
    let chars = char_vec(s);
    let wanted = char_vec(prefix);
    if stands_at(&chars, &wanted, 0) {
        Some(string_from(&chars, wanted.len(), chars.len()))
    } else {
        None
    }
}

/// The lower-case form of an ASCII letter; every other character itself.
fn lower(c: char) -> (r: char)
    ensures
        r == ascii_lower(c),
{
    if 'A' <= c && c <= 'Z' {
        (c as u8 + 32) as char
    } else {
        c
    }
}

/// Whether the two texts agree up to the case of ASCII letters.
pub fn eq_ignore_ascii_case(a: &str, b: &str) -> (yes: bool)
    ensures
        yes == same_ignoring_ascii_case(a@, b@),
{
    let left = char_vec(a);
    let right = char_vec(b);
    if left.len() != right.len() {
        return false;
    }
    let mut i: usize = 0;
    while i < left.len()
        invariant
            left@ == a@,
            right@ == b@,
            left@.len() == right@.len(),
            i <= left@.len(),
            forall|j: int|
                0 <= j < i ==> ascii_lower(#[trigger] left@[j]) == ascii_lower(right@[j]),
        decreases left@.len() - i,
    {
        if lower(left[i]) != lower(right[i]) {
            return false;
        }
        i += 1;
    }
    true
}

/// The decimal numeral of `n`.
pub fn decimal(n: u64) -> (s: String)
    ensures
        s@ == numeral(n as nat),
    decreases n,
{
    if n < 10 {
        let mut s = String::new();
        s.push((48u8 + n as u8) as char);
        s
    } else {
        let mut s = decimal(n / 10);
        s.push((48u8 + (n % 10) as u8) as char);
        s
    }
}

/// The decimal numeral of `n`, with a minus sign where it is negative.
pub fn signed_decimal(n: i64) -> (s: String)
    ensures
        s@ == signed_numeral(n as int),
{
    if n == i64::MIN {
        let mut s = String::new();
        s.push('-');
        let digits = decimal(0x8000_0000_0000_0000);
        assert(s@ =~= seq!['-']);
        s.concat(digits.as_str())
    } else if n < 0 {
        let mut s = String::new();
        s.push('-');
        let digits = decimal((-n) as u64);
        assert(s@ =~= seq!['-']);
        s.concat(digits.as_str())
    } else {
        decimal(n as u64)
    }
}

/// The view of a text that may be absent.
pub open spec fn optional(s: Option<String>) -> Option<Seq<char>> {
    match s {
        Some(s) => Some(s@),
        None => None,
    }
}

/// The text, or the empty text where there is none.
pub open spec fn or_empty(s: Option<Seq<char>>) -> Seq<char> {
    match s {
        Some(s) => s,
        None => seq![],
    }
}

/// A copy of a text that may be absent.
pub fn copy_optional(s: &Option<String>) -> (r: Option<String>)
    ensures
        optional(r) == optional(*s),
{
    match s {
        Some(s) => Some(s.clone()),
        None => None,
    }
}

/// The views of a list of strings.
pub open spec fn views(parts: Seq<String>) -> Seq<Seq<char>> {
    parts.map_values(|part: String| part@)
}

/// The parts of `parts` with `separator` between neighbours.
pub fn join(parts: &Vec<String>, separator: &str) -> (s: String)
    ensures
        s@ == joined(views(parts@), separator@),
{
    let mut s = String::new();
    let mut i: usize = 0;
    while i < parts.len()
        invariant
            i <= parts@.len(),
            s@ == joined(views(parts@).take(i as int), separator@),
        decreases parts@.len() - i,
    {
        proof {
            let next = views(parts@).take(i + 1);
            assert(next.drop_last() =~= views(parts@).take(i as int));
            assert(next.last() == parts@[i as int]@);
        }
        if i > 0 {
            s.append(separator);
        }
        s.append(parts[i].as_str());
        assert(i == 0 ==> s@ =~= parts@[0]@);
        i += 1;
    }
    assert(views(parts@).take(i as int) =~= views(parts@));
    s
}

/// Whether `s` comes before `t` in the order of character codes.
pub fn before(s: &str, t: &str) -> (yes: bool)
    ensures
        yes == precedes(s@, t@),
{
    let left = char_vec(s);
    let right = char_vec(t);
    let mut i: usize = 0;
    assert(left@.skip(0) =~= left@);
    assert(right@.skip(0) =~= right@);
    while i < left.len() && i < right.len() && left[i] == right[i]
        invariant
            i <= left@.len(),
            i <= right@.len(),
            precedes(left@, right@) == precedes(left@.skip(i as int), right@.skip(i as int)),
        decreases left@.len() - i,
    {
        assert(left@.skip(i as int).drop_first() =~= left@.skip(i + 1));
        assert(right@.skip(i as int).drop_first() =~= right@.skip(i + 1));
        i += 1;
    }
    if i >= right.len() {
        false
    } else if i >= left.len() {
        true
    } else {
        left[i] < right[i]
    }
}

/// Looking in the rest of a text is looking further on in the text.
pub proof fn position_in_rest<T>(s: Seq<T>, pattern: Seq<T>, k: int, from: int)
    requires
        0 <= k <= s.len(),
        0 <= from,
    ensures
        position_from(s, pattern, k + from) == match position_from(s.skip(k), pattern, from) {
            Some(p) => Some(p + k),
            None => None,
        },
    decreases s.len() - k - from + 1,
{
    let rest = s.skip(k);
    if from + pattern.len() <= rest.len() {
        assert(rest.subrange(from, from + pattern.len()) =~= s.subrange(
            k + from,
            k + from + pattern.len(),
        ));
        assert(occurs_at(rest, pattern, from) == occurs_at(s, pattern, k + from));
        if !occurs_at(rest, pattern, from) {
            position_in_rest(s, pattern, k, from + 1);
        }
    }
}

/// Where the pattern does not stand, looking for it passes on.
pub proof fn position_passes<T>(s: Seq<T>, pattern: Seq<T>, from: int, to: int)
    requires
        0 <= from <= to,
        to + pattern.len() <= s.len() + 1,
        forall|j: int| from <= j < to ==> !occurs_at(s, pattern, j),
    ensures
        position_from(s, pattern, from) == position_from(s, pattern, to),
    decreases to - from,
{
    if from < to {
        position_passes(s, pattern, from + 1, to);
    }
}

/// The parts of `s` between the characters `separator`.
pub open spec fn parts(s: Seq<char>, separator: char) -> Seq<Seq<char>>
    decreases s.len(),
{
    match position(s, seq![separator]) {
        Some(i) => {
            proof {
                position_is_first(s, seq![separator], 0);
            }
            seq![s.take(i)] + parts(s.skip(i + 1), separator)
        },
        None => seq![s],
    }
}

/// The parts of `s` between the characters `separator`.
pub fn split(s: &str, separator: char) -> (r: Vec<String>)
    ensures
        views(r@) == parts(s@, separator),
        r@.len() > 0,
{
    let chars = char_vec(s);
    let mut pattern: Vec<char> = Vec::new();
    pattern.push(separator);
    assert(pattern@ =~= seq![separator]);
    let mut r: Vec<String> = Vec::new();
    let mut from: usize = 0;
    assert(chars@.skip(0) =~= chars@);
    assert(views(r@) + parts(chars@, separator) =~= parts(chars@, separator));
    loop
        invariant
            chars@ == s@,
            pattern@ == seq![separator],
            from <= chars@.len() == chars.len(),
            views(r@) + parts(chars@.skip(from as int), separator) == parts(s@, separator),
        decreases chars@.len() - from,
    {
        let ghost rest = chars@.skip(from as int);
        let ghost before = views(r@);
        proof {
            position_in_rest(chars@, pattern@, from as int, 0);
            position_is_first(rest, pattern@, 0);
        }
        match find_from(&chars, &pattern, from) {
            Some(at) => {
                r.push(string_from(&chars, from, at));
                proof {
                    let i = at - from;
                    assert(rest.take(i) =~= chars@.subrange(from as int, at as int));
                    assert(rest.skip(i + 1) =~= chars@.skip(at + 1));
                    assert(views(r@) =~= before.push(rest.take(i)));
                    assert(views(r@) + parts(rest.skip(i + 1), separator) =~= before + parts(
                        rest,
                        separator,
                    ));
                }
                from = at + 1;
            },
            None => {
                r.push(string_from(&chars, from, chars.len()));
                proof {
                    assert(chars@.subrange(from as int, chars@.len() as int) =~= rest);
                    assert(views(r@) =~= before + seq![rest]);
                }
                return r;
            },
        }
    }
}

/// White space is what Unicode lists as such: the six ASCII characters, next
/// line, and the spaces and separators beyond them.
pub proof fn white_space_is_listed(c: char)
    ensures
        is_space(c) <==> (seq![
            0x9u32,
            0xa,
            0xb,
            0xc,
            0xd,
            0x20,
            0x85,
            0xa0,
            0x1680,
            0x2028,
            0x2029,
            0x202f,
            0x205f,
            0x3000,
        ].contains(c as u32) || 0x2000 <= c as u32 <= 0x200a),
{
    let listed = seq![
        0x9u32,
        0xa,
        0xb,
        0xc,
        0xd,
        0x20,
        0x85,
        0xa0,
        0x1680,
        0x2028,
        0x2029,
        0x202f,
        0x205f,
        0x3000,
    ];
    assert(listed[0] == 0x9 && listed[1] == 0xa && listed[2] == 0xb && listed[3] == 0xc && listed[4]
        == 0xd && listed[5] == 0x20 && listed[6] == 0x85 && listed[7] == 0xa0 && listed[8]
        == 0x1680 && listed[9] == 0x2028 && listed[10] == 0x2029 && listed[11] == 0x202f
        && listed[12] == 0x205f && listed[13] == 0x3000);
}

/// The characters of `s` are all white space.
pub open spec fn all_space(s: Seq<char>) -> bool {
    forall|i: int| 0 <= i < s.len() ==> is_space(#[trigger] s[i])
}

proof fn trimmed_start_parts(s: Seq<char>) -> (k: int)
    ensures
        0 <= k <= s.len(),
        trimmed_start(s) == s.skip(k),
        all_space(s.take(k)),
        k < s.len() ==> !is_space(s[k]),
    decreases s.len(),
{
    if s.len() > 0 && is_space(s[0]) {
        let k = trimmed_start_parts(s.drop_first()) + 1;
        assert(s.skip(k) =~= s.drop_first().skip(k - 1));
        assert forall|i: int| 0 <= i < k implies is_space(#[trigger] s.take(k)[i]) by {
            if i > 0 {
                assert(s.drop_first().take(k - 1)[i - 1] == s[i]);
            }
        }
        k
    } else {
        assert(s.skip(0) =~= s);
        0
    }
}

proof fn trimmed_end_parts(s: Seq<char>) -> (k: int)
    ensures
        0 <= k <= s.len(),
        trimmed_end(s) == s.take(k),
        all_space(s.skip(k)),
        k > 0 ==> !is_space(s[k - 1]),
    decreases s.len(),
{
    if s.len() > 0 && is_space(s.last()) {
        let k = trimmed_end_parts(s.drop_last());
        assert(s.take(k) =~= s.drop_last().take(k));
        assert forall|i: int| 0 <= i < s.skip(k).len() implies is_space(
            #[trigger] s.skip(k)[i],
        ) by {
            if k + i < s.len() - 1 {
                assert(s.drop_last().skip(k)[i] == s[k + i]);
            }
        }
        k
    } else {
        assert(s.take(s.len() as int) =~= s);
        s.len() as int
    }
}

/// Trimming takes white space off both ends and nothing else: what is taken off is
/// white space, and what is left neither begins nor ends with any.
pub proof fn trimming_takes_outer_space(s: Seq<char>)
    ensures
        exists|from: int, to: int|
            {
                &&& 0 <= from <= to <= s.len()
                &&& trimmed(s) == #[trigger] s.subrange(from, to)
                &&& all_space(s.take(from))
                &&& all_space(s.skip(to))
            },
        trimmed(s).len() > 0 ==> !is_space(trimmed(s)[0]) && !is_space(trimmed(s).last()),
{
    let from = trimmed_start_parts(s);
    let rest = s.skip(from);
    let kept = trimmed_end_parts(rest);
    let to = from + kept;
    assert(trimmed(s) =~= s.subrange(from, to));
    assert forall|i: int| 0 <= i < s.skip(to).len() implies is_space(#[trigger] s.skip(to)[i]) by {
        assert(rest.skip(kept)[i] == s[to + i]);
    }
}

/// A text is blank exactly when it holds nothing but white space.
pub proof fn blank_is_all_space(s: Seq<char>)
    ensures
        is_blank(s) <==> all_space(s),
{
    trimming_takes_outer_space(s);
    let (from, to) = choose|from: int, to: int|
        {
            &&& 0 <= from <= to <= s.len()
            &&& trimmed(s) == #[trigger] s.subrange(from, to)
            &&& all_space(s.take(from))
            &&& all_space(s.skip(to))
        };
    if is_blank(s) {
        assert forall|i: int| 0 <= i < s.len() implies is_space(#[trigger] s[i]) by {
            if i < from {
                assert(s.take(from)[i] == s[i]);
            } else {
                assert(s.skip(to)[i - to] == s[i]);
            }
        }
    }
    if all_space(s) && trimmed(s).len() > 0 {
        assert(trimmed(s)[0] == s[from]);
    }
}

/// Taking off trailing characters leaves the text in front of them.
pub proof fn trailing_characters_are_taken(s: Seq<char>, c: char)
    ensures
        without_trailing(s, c).is_prefix_of(s),
        forall|i: int| without_trailing(s, c).len() <= i < s.len() ==> #[trigger] s[i] == c,
        without_trailing(s, c).len() > 0 ==> without_trailing(s, c).last() != c,
    decreases s.len(),
{
    if s.len() > 0 && s.last() == c {
        let rest = s.drop_last();
        trailing_characters_are_taken(rest, c);
        assert forall|i: int| without_trailing(s, c).len() <= i < s.len() implies #[trigger] s[i]
            == c by {
            if i < rest.len() {
                assert(rest[i] == s[i]);
            }
        }
    }
}

/// A pattern occurs in a text exactly where the text has its characters one by
/// one.
pub proof fn occurrence_by_character<T>(s: Seq<T>, pattern: Seq<T>)
    ensures
        occurs(s, pattern) <==> exists|i: int|
            0 <= i <= s.len() - pattern.len() && #[trigger] stands_in(s, pattern, i),
        forall|i: int| #[trigger]
            occurs_at(s, pattern, i) <==> 0 <= i <= s.len() - pattern.len() && stands_in(
                s,
                pattern,
                i,
            ),
{
    assert forall|i: int| #[trigger]
        occurs_at(s, pattern, i) <==> 0 <= i <= s.len() - pattern.len() && stands_in(
            s,
            pattern,
            i,
        ) by {
        if occurs_at(s, pattern, i) {
            assert forall|j: int| 0 <= j < pattern.len() implies s[i + j]
                == #[trigger] pattern[j] by {
                assert(s.subrange(i, i + pattern.len())[j] == pattern[j]);
            }
        }
        if 0 <= i <= s.len() - pattern.len() && stands_in(s, pattern, i) {
            assert(s.subrange(i, i + pattern.len()) =~= pattern);
        }
    }
    if exists|i: int| 0 <= i <= s.len() - pattern.len() && #[trigger] stands_in(s, pattern, i) {
        let i = choose|i: int|
            0 <= i <= s.len() - pattern.len() && #[trigger] stands_in(s, pattern, i);
        assert(occurs_at(s, pattern, i));
    }
    if occurs(s, pattern) {
        let i = choose|i: int| occurs_at(s, pattern, i);
        assert(stands_in(s, pattern, i));
    }
}

/// The characters of `s` from `i` on are those of `pattern`.
pub open spec fn stands_in<T>(s: Seq<T>, pattern: Seq<T>, i: int) -> bool {
    forall|j: int| 0 <= j < pattern.len() ==> s[i + j] == #[trigger] pattern[j]
}

/// A text with anything around it is found in the whole.
pub proof fn embedded_text_occurs<T>(front: Seq<T>, pattern: Seq<T>, back: Seq<T>)
    ensures
        occurs(front + pattern + back, pattern),
{
    let whole = front + pattern + back;
    assert(whole.subrange(front.len() as int, (front.len() + pattern.len()) as int) =~= pattern);
    assert(occurs_at(whole, pattern, front.len() as int));
}

/// What is left of a text behind a prefix makes up the text with the prefix, and a
/// text with the prefix put in front of it is what is left.
pub proof fn prefix_and_rest(s: Seq<char>, prefix: Seq<char>, rest: Seq<char>)
    ensures
        stripped_prefix(s, prefix) == Some(rest) <==> s == prefix + rest,
        stripped_prefix(s, prefix) is Some <==> prefix.is_prefix_of(s),
{
    if s == prefix + rest {
        assert(s.subrange(0, prefix.len() as int) =~= prefix);
        assert(s.subrange(prefix.len() as int, s.len() as int) =~= rest);
    }
    if stripped_prefix(s, prefix) == Some(rest) {
        assert(s =~= s.subrange(0, prefix.len() as int) + s.subrange(
            prefix.len() as int,
            s.len() as int,
        ));
    }
}

/// Of two characters that agree up to ASCII case, either both are the same or one
/// is an ASCII letter and the other the same letter in the other case.
pub proof fn case_is_all_that_differs(a: char, b: char)
    ensures
        ascii_lower(a) == ascii_lower(b) <==> a == b || ('A' <= a <= 'Z' && b as u32 == a as u32
            + 32) || ('A' <= b <= 'Z' && a as u32 == b as u32 + 32),
{
}

/// The number that a text of decimal digits spells.
pub open spec fn spelled(digits: Seq<char>) -> nat
    decreases digits.len(),
{
    if digits.len() == 0 {
        0
    } else {
        (10 * spelled(digits.drop_last()) + (digits.last() as u32 - '0' as u32)) as nat
    }
}

/// The numeral of a number spells it in decimal digits, without leading zeros.
pub proof fn numeral_spells_number(n: nat)
    ensures
        spelled(numeral(n)) == n,
        numeral(n).len() > 0,
        forall|i: int| 0 <= i < numeral(n).len() ==> '0' <= #[trigger] numeral(n)[i] <= '9',
        n > 0 ==> numeral(n)[0] != '0',
        signed_numeral(n as int) == numeral(n),
        n > 0 ==> signed_numeral(-(n as int)) == seq!['-'] + numeral(n),
    decreases n,
{
    if n < 10 {
        assert(numeral(n).drop_last() =~= seq![]);
        assert(spelled(numeral(n).drop_last()) == 0);
        assert(numeral(n).last() as u32 == '0' as u32 + n);
    } else {
        numeral_spells_number(n / 10);
        assert(numeral(n).drop_last() =~= numeral(n / 10));
        assert(numeral(n)[0] == numeral(n / 10)[0]);
        assert(numeral(n).last() as u32 == '0' as u32 + n % 10);
    }
}

/// Joining puts the separator between the parts and nowhere else.
pub proof fn joining_separates_parts(
    first: Seq<char>,
    second: Seq<char>,
    rest: Seq<Seq<char>>,
    separator: Seq<char>,
)
    ensures
        joined(seq![], separator) == Seq::<char>::empty(),
        joined(seq![first], separator) == first,
        joined(seq![first, second] + rest, separator) == first + separator + joined(
            seq![second] + rest,
            separator,
        ),
    decreases rest.len(),
{
    let all = seq![first, second] + rest;
    let tail = seq![second] + rest;
    if rest.len() == 0 {
        assert(all.drop_last() =~= seq![first]);
        assert(all.last() == second);
        assert(tail =~= seq![second]);
        assert(joined(all.drop_last(), separator) == first);
        assert(joined(tail, separator) == second);
    } else {
        joining_separates_parts(first, second, rest.drop_last(), separator);
        assert(all.drop_last() =~= seq![first, second] + rest.drop_last());
        assert(tail.drop_last() =~= seq![second] + rest.drop_last());
        assert(joined(all, separator) =~= first + separator + joined(tail, separator));
    }
}

/// One text comes before another exactly when, at the first character at which they
/// differ, it has the lesser code or has ended.
pub proof fn first_difference_orders(common: Seq<char>, s: Seq<char>, t: Seq<char>)
    requires
        s.len() > 0 && t.len() > 0 ==> s[0] != t[0],
    ensures
        precedes(common + s, common + t) <==> t.len() > 0 && (s.len() == 0 || s[0] < t[0]),
    decreases common.len(),
{
    if common.len() == 0 {
        assert(common + s =~= s);
        assert(common + t =~= t);
    } else {
        first_difference_orders(common.drop_first(), s, t);
        assert((common + s).drop_first() =~= common.drop_first() + s);
        assert((common + t).drop_first() =~= common.drop_first() + t);
    }
}

proof fn character_stands_nowhere(s: Seq<char>, c: char, k: int)
    requires
        0 <= k <= s.len(),
        forall|j: int| 0 <= j < k ==> !occurs_at(s, seq![c], j),
    ensures
        !s.take(k).contains(c),
{
    let front = s.take(k);
    if front.contains(c) {
        let i = choose|i: int| 0 <= i < front.len() && front[i] == c;
        assert(s.subrange(i, i + 1) =~= seq![c]);
        assert(occurs_at(s, seq![c], i));
    }
}

/// The parts of a text hold no separator and, joined by it, give the text back.
pub proof fn parts_make_up_text(s: Seq<char>, separator: char)
    ensures
        parts(s, separator).len() > 0,
        joined(parts(s, separator), seq![separator]) == s,
        forall|i: int|
            0 <= i < parts(s, separator).len() ==> !(#[trigger] parts(s, separator)[i]).contains(
                separator,
            ),
    decreases s.len(),
{
    let mark = seq![separator];
    position_is_first(s, mark, 0);
    match position(s, mark) {
        Some(i) => {
            let (front, back) = (s.take(i), s.skip(i + 1));
            assert(s[i] == separator) by {
                assert(s.subrange(i, i + 1)[0] == s[i]);
            }
            character_stands_nowhere(s, separator, i);
            parts_make_up_text(back, separator);
            let later = parts(back, separator);
            let all = parts(s, separator);
            assert(all == seq![front] + later);
            assert forall|k: int| 0 <= k < all.len() implies !(#[trigger] all[k]).contains(
                separator,
            ) by {
                if k > 0 {
                    assert(all[k] == later[k - 1]);
                }
            }
            assert(joined(all, mark) == s) by {
                let rest = later.skip(1);
                assert(later =~= seq![later[0]] + rest);
                assert(all =~= seq![front, later[0]] + rest);
                joining_separates_parts(front, later[0], rest, mark);
                assert(s =~= front + mark + back);
            }
        },
        None => {
            character_stands_nowhere(s, separator, s.len() as int);
            assert(s.take(s.len() as int) =~= s);
            assert(parts(s, separator) =~= seq![s]);
            assert(joined(seq![s], mark) == s);
        },
    }
}

/// Lists of strings are seen string by string, and a text that may be absent as
/// absent or as itself.
pub proof fn texts_are_seen_one_by_one(list: Seq<String>, s: Option<String>)
    ensures
        views(list).len() == list.len(),
        forall|i: int| 0 <= i < list.len() ==> #[trigger] views(list)[i] == list[i]@,
        s is None ==> optional(s) is None && or_empty(optional(s)).len() == 0,
        s matches Some(given) ==> optional(s) == Some(given@) && or_empty(optional(s)) == given@,
{
}

} // verus!
