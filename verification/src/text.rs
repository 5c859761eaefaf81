//! Text handling shared by the command builders: Unicode white space, splitting into words,
//! trimming, substring search and decimal rendering, all over sequences of characters.

use vstd::prelude::*;

verus! {

broadcast use vstd::string::group_string_axioms;

/// The Unicode `White_Space` property.
pub open spec fn white_space(c: char) -> bool {
    let u = c as u32;
    ||| 0x09 <= u <= 0x0d
    ||| u == 0x20
    ||| u == 0x85
    ||| u == 0xa0
    ||| u == 0x1680
    ||| 0x2000 <= u <= 0x200a
    ||| u == 0x2028
    ||| u == 0x2029
    ||| u == 0x202f
    ||| u == 0x205f
    ||| u == 0x3000
}

/// True when no character of `s` is white space.
pub open spec fn solid(s: Seq<char>) -> bool {
    forall|i: int| 0 <= i < s.len() ==> !white_space(#[trigger] s[i])
}

/// True when every character of `s` is white space.
pub open spec fn blank(s: Seq<char>) -> bool {
    forall|i: int| 0 <= i < s.len() ==> white_space(#[trigger] s[i])
}

/// Length of the longest prefix of `s` that holds no white space.
pub open spec fn word_len(s: Seq<char>) -> nat
    decreases s.len(),
{
    if s.len() == 0 || white_space(s[0]) {
        0
    } else {
        1 + word_len(s.drop_first())
    }
}

/// The maximal runs of `s` that hold no white space, in order.
pub open spec fn words(s: Seq<char>) -> Seq<Seq<char>>
    decreases s.len(),
{
    if s.len() == 0 {
        Seq::empty()
    } else if white_space(s[0]) {
        words(s.drop_first())
    } else {
        let n = word_len(s);
        proof {
            lemma_word_len(s);
        }
        seq![s.take(n as int)] + words(s.skip(n as int))
    }
}

/// `s` without its leading white space.
pub open spec fn trim_start(s: Seq<char>) -> Seq<char>
    decreases s.len(),
{
    if s.len() > 0 && white_space(s[0]) {
        trim_start(s.drop_first())
    } else {
        s
    }
}

/// `s` without its trailing white space.
pub open spec fn trim_end(s: Seq<char>) -> Seq<char>
    decreases s.len(),
{
    if s.len() > 0 && white_space(s.last()) {
        trim_end(s.drop_last())
    } else {
        s
    }
}

/// `s` without white space at either end.
pub open spec fn trimmed(s: Seq<char>) -> Seq<char> {
    trim_end(trim_start(s))
}

/// `needle` stands in `hay` at index `at`.
pub open spec fn occurs_at(hay: Seq<char>, needle: Seq<char>, at: int) -> bool {
    &&& 0 <= at
    &&& at + needle.len() <= hay.len()
    &&& hay.subrange(at, at + needle.len()) == needle
}

/// `needle` is a contiguous part of `hay`.
pub open spec fn occurs(hay: Seq<char>, needle: Seq<char>) -> bool {
    exists|at: int| occurs_at(hay, needle, at)
}

/// The character of a decimal digit.
pub open spec fn digit(d: int) -> char {
    (48 + d) as char
}

/// `n` in decimal, without leading zeros.
pub open spec fn decimal(n: nat) -> Seq<char>
    decreases n,
{
    if n < 10 {
        seq![digit(n as int)]
    } else {
        decimal(n / 10).push(digit((n % 10) as int))
    }
}

/// The contents of a list of strings.
pub open spec fn contents(list: Seq<String>) -> Seq<Seq<char>> {
    list.map_values(|s: String| s@)
}

/// `word_len` is the length of a prefix, which is solid and cannot be extended.
pub proof fn lemma_word_len(s: Seq<char>)
    ensures
        word_len(s) <= s.len(),
        solid(s.take(word_len(s) as int)),
        word_len(s) < s.len() ==> white_space(s[word_len(s) as int]),
        s.len() > 0 && !white_space(s[0]) ==> word_len(s) > 0,
    decreases s.len(),
{
    if s.len() > 0 && !white_space(s[0]) {
        let rest = s.drop_first();
        lemma_word_len(rest);
        let n = word_len(rest);
        assert forall|i: int| 0 <= i < n + 1 implies !white_space(
            #[trigger] s.take(n as int + 1)[i],
        ) by {
            if i > 0 {
                assert(rest.take(n as int)[i - 1] == s[i]);
            }
        }
    }
}

/// Tells whether a character is white space.
pub fn is_white_space(c: char) -> (r: bool)
    ensures
        r == white_space(c),
{
    let u: u32 = c as u32;
    (0x09 <= u && u <= 0x0d) || u == 0x20 || u == 0x85 || u == 0xa0 || u == 0x1680 || (0x2000 <= u
        && u <= 0x200a) || u == 0x2028 || u == 0x2029 || u == 0x202f || u == 0x205f || u == 0x3000
}

/// The characters of a string slice.
pub fn chars_of(s: &str) -> (v: Vec<char>)
    ensures
        v@ == s@,
{
    let mut v: Vec<char> = Vec::new();
    for c in it: s.chars()
        invariant
            it.seq() == s@,
            v@ == s@.take(it.index()),
    {
        v.push(c);
        assert(v@ == s@.take(it.index() + 1));
    }
    assert(s@.take(s@.len() as int) == s@);
    v
}

/// Splits a text into its words.
pub fn split_whitespace(s: &str) -> (list: Vec<String>)
    ensures
        contents(list@) == words(s@),
        list@.len() == words(s@).len(),
        forall|i: int| 0 <= i < list@.len() ==> (#[trigger] list@[i])@ == words(s@)[i],
{
    let chars = chars_of(s);
    let len: usize = chars.len();
    let mut list: Vec<String> = Vec::new();
    let mut i: usize = 0;
    assert(s@.skip(0) == s@);
    assert(contents(list@) == Seq::<Seq<char>>::empty());
    while i < len
        invariant
            len == chars@.len(),
            chars@ == s@,
            i <= len,
            words(s@) == contents(list@) + words(s@.skip(i as int)),
        decreases len - i,
    {
        let ghost rest = s@.skip(i as int);
        assert(rest[0] == chars@[i as int]);
        if is_white_space(chars[i]) {
            assert(rest.drop_first() == s@.skip(i + 1));
            i = i + 1;
        } else {
            let start: usize = i;
            proof {
                lemma_word_len(rest);
            }
            i = i + 1;
            while i < len && !is_white_space(chars[i])
                invariant
                    len == chars@.len(),
                    chars@ == s@,
                    start < i <= len,
                    rest == s@.skip(start as int),
                    solid(rest.take(i - start)),
                decreases len - i,
            {
                i = i + 1;
                assert forall|k: int| 0 <= k < i - start implies !white_space(
                    #[trigger] rest.take(i - start)[k],
                ) by {
                    if k < i - start - 1 {
                        assert(rest.take(i - start - 1)[k] == rest[k]);
                    } else {
                        assert(rest[k] == chars@[i - 1]);
                    }
                }
            }
            proof {
                assert(i < len ==> rest[i - start] == chars@[i as int]);
                lemma_word_len_unique(rest, (i - start) as nat);
                assert(rest.take(i - start) == s@.subrange(start as int, i as int));
                assert(rest.skip(i - start) == s@.skip(i as int));
            }
            let word = s.substring_char(start, i).to_owned();
            let ghost before = list@;
            list.push(word);
            assert(contents(list@) == contents(before).push(word@));
            assert(words(s@) == contents(list@) + words(s@.skip(i as int)));
        }
    }
    assert(s@.skip(len as int) == Seq::<char>::empty());
    assert(contents(list@) + words(s@.skip(len as int)) == contents(list@));
    assert forall|i: int| 0 <= i < list@.len() implies (#[trigger] list@[i])@ == words(s@)[i] by {
        assert(contents(list@)[i] == list@[i]@);
    }
    list
}

/// A solid prefix that ends the text or is followed by white space is the whole first word.
proof fn lemma_word_len_unique(s: Seq<char>, n: nat)
    requires
        n <= s.len(),
        solid(s.take(n as int)),
        n < s.len() ==> white_space(s[n as int]),
    ensures
        word_len(s) == n,
{
    lemma_word_len(s);
    let m = word_len(s);
    if m < n {
        assert(s.take(n as int)[m as int] == s[m as int]);
    }
    if n < m {
        assert(s.take(m as int)[n as int] == s[n as int]);
    }
}

/// Removes white space from both ends of a text.
pub fn trim(s: &str) -> (r: String)
    ensures
        r@ == trimmed(s@),
        exists|start: int, end: int|
            {
                &&& 0 <= start <= end <= s@.len()
                &&& r@ == #[trigger] s@.subrange(start, end)
                &&& blank(s@.take(start))
                &&& blank(s@.skip(end))
                &&& start < end ==> !white_space(s@[start]) && !white_space(s@[end - 1])
            },
{
    let chars = chars_of(s);
    let len: usize = chars.len();
    let mut start: usize = 0;
    assert(s@.skip(0) == s@);
    while start < len && is_white_space(chars[start])
        invariant
            len == chars@.len(),
            chars@ == s@,
            start <= len,
            blank(s@.take(start as int)),
            trim_start(s@) == trim_start(s@.skip(start as int)),
        decreases len - start,
    {
        assert(s@.skip(start as int).drop_first() == s@.skip(start + 1));
        assert(s@.skip(start as int)[0] == chars@[start as int]);
        assert(s@.take(start + 1) == s@.take(start as int).push(s@[start as int]));
        start = start + 1;
    }
    let ghost rest = s@.skip(start as int);
    assert(start < len ==> rest[0] == chars@[start as int]);
    assert(trim_start(s@) == rest);
    let mut end: usize = len;
    assert(rest.take(len - start) == rest);
    while end > start && is_white_space(chars[end - 1])
        invariant
            len == chars@.len(),
            chars@ == s@,
            start <= end <= len,
            rest == s@.skip(start as int),
            blank(s@.skip(end as int)),
            trim_end(rest) == trim_end(rest.take(end - start)),
        decreases end,
    {
        assert(rest.take(end - start).drop_last() == rest.take(end - start - 1));
        assert(rest.take(end - start).last() == chars@[end - 1]);
        assert(s@.skip(end - 1) == seq![s@[end - 1]] + s@.skip(end as int));
        end = end - 1;
    }
    assert(end > start ==> rest.take(end - start).last() == chars@[end - 1]);
    assert(rest.take(end - start) == s@.subrange(start as int, end as int));
    s.substring_char(start, end).to_owned()
}

/// Tells whether two texts hold the same characters.
pub fn same_text(a: &str, b: &str) -> (r: bool)
    ensures
        r == (a@ == b@),
{
    let left = chars_of(a);
    let right = chars_of(b);
    if left.len() != right.len() {
        return false;
    }
    let len: usize = left.len();
    let mut i: usize = 0;
    while i < len
        invariant
            left@ == a@,
            right@ == b@,
            len == left@.len(),
            len == right@.len(),
            i <= len,
            forall|k: int| 0 <= k < i ==> left@[k] == right@[k],
        decreases len - i,
    {
        if left[i] != right[i] {
            assert(left@[i as int] != right@[i as int]);
            return false;
        }
        i = i + 1;
    }
    assert(left@ == right@);
    true
}

/// Tells whether `needle` stands in `hay` at index `at`.
fn matches_at(hay: &Vec<char>, needle: &Vec<char>, at: usize) -> (r: bool)
    requires
        at + needle@.len() <= hay@.len(),
    ensures
        r == occurs_at(hay@, needle@, at as int),
{
    let len: usize = needle.len();
    let hay_len: usize = hay.len();
    let mut i: usize = 0;
    while i < len
        invariant
            len == needle@.len(),
            hay_len == hay@.len(),
            at + len <= hay_len,
            i <= len,
            forall|k: int| 0 <= k < i ==> hay@[at + k] == needle@[k],
        decreases len - i,
    {
        if hay[at + i] != needle[i] {
            assert(hay@.subrange(at as int, at + len)[i as int] != needle@[i as int]);
            return false;
        }
        i = i + 1;
    }
    assert(hay@.subrange(at as int, at + len) == needle@);
    true
}

/// Tells whether `needle` is a contiguous part of `hay`.
pub fn contains(hay: &str, needle: &str) -> (r: bool)
    ensures
        r == occurs(hay@, needle@),
        r <==> exists|before: Seq<char>, after: Seq<char>|
            hay@ == #[trigger] (before + needle@ + after),
{
    proof {
        law_occurs(hay@, needle@);
    }
    let hay_chars = chars_of(hay);
    let needle_chars = chars_of(needle);
    if needle_chars.len() > hay_chars.len() {
        return false;
    }
    let last: usize = hay_chars.len() - needle_chars.len();
    let mut at: usize = 0;
    while at < last
        invariant
            hay_chars@ == hay@,
            needle_chars@ == needle@,
            last == hay@.len() - needle@.len(),
            at <= last,
            forall|k: int| 0 <= k < at ==> !occurs_at(hay@, needle@, k),
        decreases last - at,
    {
        if matches_at(&hay_chars, &needle_chars, at) {
            proof {
                law_occurs(hay@, needle@);
            }
            return true;
        }
        at = at + 1;
    }
    matches_at(&hay_chars, &needle_chars, last)
}

/// The one-character text of a decimal digit.
fn digit_text(d: u32) -> (r: &'static str)
    requires
        d < 10,
    ensures
        r@ == seq![digit(d as int)],
{
    proof {
        reveal_strlit("0");
        reveal_strlit("1");
        reveal_strlit("2");
        reveal_strlit("3");
        reveal_strlit("4");
        reveal_strlit("5");
        reveal_strlit("6");
        reveal_strlit("7");
        reveal_strlit("8");
        reveal_strlit("9");
    }
    if d == 0 {
        "0"
    } else if d == 1 {
        "1"
    } else if d == 2 {
        "2"
    } else if d == 3 {
        "3"
    } else if d == 4 {
        "4"
    } else if d == 5 {
        "5"
    } else if d == 6 {
        "6"
    } else if d == 7 {
        "7"
    } else if d == 8 {
        "8"
    } else {
        "9"
    }
}

/// Appends `n` in decimal to `out`.
pub fn append_decimal(out: &mut String, n: u32)
    ensures
        final(out)@ == old(out)@ + decimal(n as nat),
    decreases n,
{
    if n >= 10 {
        append_decimal(out, n / 10);
    }
    out.append(digit_text(n % 10));
    assert(out@ == old(out)@ + decimal(n as nat));
}

/// Every word is non-empty and holds no white space.
pub proof fn law_words_are_solid(s: Seq<char>)
    ensures
        forall|i: int|
            0 <= i < words(s).len() ==> (#[trigger] words(s)[i]).len() > 0 && solid(words(s)[i]),
    decreases s.len(),
{
    if s.len() > 0 {
        if white_space(s[0]) {
            law_words_are_solid(s.drop_first());
            assert(words(s) == words(s.drop_first()));
        } else {
            lemma_word_len(s);
            let n = word_len(s) as int;
            law_words_are_solid(s.skip(n));
            assert forall|i: int| 0 <= i < words(s).len() implies (#[trigger] words(s)[i]).len() > 0
                && solid(words(s)[i]) by {
                if i == 0 {
                    assert(words(s)[i] == s.take(n));
                } else {
                    assert(words(s)[i] == words(s.skip(n))[i - 1]);
                }
            }
        }
    } else {
        assert(words(s).len() == 0);
    }
}

/// A non-empty text without white space is its own only word.
pub proof fn law_words_of_solid(s: Seq<char>)
    requires
        s.len() > 0,
        solid(s),
    ensures
        words(s) == seq![s],
{
    assert(!white_space(s[0]));
    assert(s.take(s.len() as int) == s);
    lemma_word_len_unique(s, s.len());
    assert(s.skip(s.len() as int) == Seq::<char>::empty());
    assert(words(s) == seq![s] + words(s.skip(s.len() as int)));
    assert(words(s.skip(s.len() as int)) == Seq::<Seq<char>>::empty());
}

/// White space at a seam keeps the words on its two sides apart: the words of the joined text
/// are those of the left part followed by those of the right part.
pub proof fn law_words_of_join(a: Seq<char>, b: Seq<char>)
    requires
        a.len() == 0 || b.len() == 0 || white_space(a.last()) || white_space(b[0]),
    ensures
        words(a + b) == words(a) + words(b),
    decreases a.len(),
{
    if a.len() == 0 {
        assert(a + b == b);
        assert(words(a) + words(b) == words(b));
    } else if b.len() == 0 {
        assert(a + b == a);
        assert(words(a) + words(b) == words(a));
    } else if white_space(a[0]) {
        assert((a + b).drop_first() == a.drop_first() + b);
        if a.len() > 1 {
            assert(a.drop_first().last() == a.last());
        }
        law_words_of_join(a.drop_first(), b);
    } else {
        lemma_word_len(a);
        let n = word_len(a);
        assert((a + b).take(n as int) == a.take(n as int));
        assert(n < a.len() ==> (a + b)[n as int] == a[n as int]);
        if n == a.len() {
            assert(a.take(n as int)[n - 1] == a.last());
            assert((a + b)[n as int] == b[0]);
        }
        lemma_word_len_unique(a + b, n);
        assert((a + b).skip(n as int) == a.skip(n as int) + b);
        if n < a.len() {
            assert(a.skip(n as int).last() == a.last());
        }
        law_words_of_join(a.skip(n as int), b);
        assert(seq![a.take(n as int)] + (words(a.skip(n as int)) + words(b)) == (seq![
            a.take(n as int),
        ] + words(a.skip(n as int))) + words(b));
    }
}

/// A trimmed text has no white space at either end, and trimming does not change its words.
pub proof fn law_trimmed(s: Seq<char>)
    ensures
        trimmed(s).len() > 0 ==> !white_space(trimmed(s)[0]) && !white_space(trimmed(s).last()),
        words(trimmed(s)) == words(s),
{
    lemma_trim_start(s);
    lemma_trim_end(trim_start(s));
}

proof fn lemma_trim_start(s: Seq<char>)
    ensures
        trim_start(s).len() > 0 ==> !white_space(trim_start(s)[0]),
        words(trim_start(s)) == words(s),
    decreases s.len(),
{
    if s.len() > 0 && white_space(s[0]) {
        lemma_trim_start(s.drop_first());
    }
}

proof fn lemma_trim_end(s: Seq<char>)
    ensures
        trim_end(s).len() > 0 ==> !white_space(trim_end(s).last()) && trim_end(s)[0] == s[0],
        words(trim_end(s)) == words(s),
    decreases s.len(),
{
    if s.len() > 0 && white_space(s.last()) {
        let body = s.drop_last();
        lemma_trim_end(body);
        let tail = seq![s.last()];
        assert(s == body + tail);
        law_words_of_join(body, tail);
        assert(tail.drop_first() == Seq::<char>::empty());
        assert(words(tail) == words(tail.drop_first()));
        assert(words(tail) == Seq::<Seq<char>>::empty());
        assert(words(body) + Seq::<Seq<char>>::empty() == words(body));
    }
}

/// A decimal numeral is one word.
pub proof fn law_decimal_is_solid(n: nat)
    ensures
        decimal(n).len() > 0,
        solid(decimal(n)),
    decreases n,
{
    if n >= 10 {
        law_decimal_is_solid(n / 10);
    }
}

/// A text occurs in another exactly where that one is made of it, with any text before and after.
pub proof fn law_occurs(hay: Seq<char>, needle: Seq<char>)
    ensures
        occurs(hay, needle) <==> exists|before: Seq<char>, after: Seq<char>|
            hay == #[trigger] (before + needle + after),
{
    if occurs(hay, needle) {
        let at = choose|at: int| occurs_at(hay, needle, at);
        let before = hay.take(at);
        let after = hay.skip(at + needle.len());
        assert(hay == before + needle + after) by {
            assert(hay.subrange(at, at + needle.len()) == needle);
            assert(hay == hay.take(at) + hay.subrange(at, at + needle.len()) + hay.skip(
                at + needle.len(),
            ));
        }
    }
    if exists|before: Seq<char>, after: Seq<char>| hay == #[trigger] (before + needle + after) {
        let (before, after) = choose|before: Seq<char>, after: Seq<char>|
            hay == #[trigger] (before + needle + after);
        let at = before.len() as int;
        assert(hay.subrange(at, at + needle.len()) == needle);
        assert(occurs_at(hay, needle, at));
    }
}

/// White space alone has no words.
pub proof fn law_words_of_blank(s: Seq<char>)
    requires
        blank(s),
    ensures
        words(s) == Seq::<Seq<char>>::empty(),
    decreases s.len(),
{
    if s.len() > 0 {
        assert(white_space(s[0]));
        assert forall|i: int| 0 <= i < s.drop_first().len() implies white_space(
            #[trigger] s.drop_first()[i],
        ) by {
            assert(s.drop_first()[i] == s[i + 1]);
        }
        law_words_of_blank(s.drop_first());
    }
}

/// White space around a text with clean ends is what trimming takes away, and all of it.
pub proof fn law_trimmed_is_the_core(lead: Seq<char>, core: Seq<char>, tail: Seq<char>)
    requires
        blank(lead),
        blank(tail),
        core.len() > 0 ==> !white_space(core[0]) && !white_space(core.last()),
    ensures
        trimmed(lead + core + tail) == core,
{
    assert(lead + core + tail == lead + (core + tail));
    lemma_trim_start_of_blank(lead, core + tail);
    if core.len() > 0 {
        assert((core + tail)[0] == core[0]);
        assert(trim_start(core + tail) == core + tail);
        lemma_trim_end_of_blank(core, tail);
    } else {
        assert(core + tail == tail);
        assert(tail + core == tail);
        lemma_trim_start_of_blank(tail, core);
    }
}

proof fn lemma_trim_start_of_blank(lead: Seq<char>, rest: Seq<char>)
    requires
        blank(lead),
    ensures
        trim_start(lead + rest) == trim_start(rest),
    decreases lead.len(),
{
    if lead.len() == 0 {
        assert(lead + rest == rest);
    } else {
        assert((lead + rest)[0] == lead[0]);
        assert((lead + rest).drop_first() == lead.drop_first() + rest);
        assert forall|i: int| 0 <= i < lead.drop_first().len() implies white_space(
            #[trigger] lead.drop_first()[i],
        ) by {
            assert(lead.drop_first()[i] == lead[i + 1]);
        }
        lemma_trim_start_of_blank(lead.drop_first(), rest);
    }
}

proof fn lemma_trim_end_of_blank(rest: Seq<char>, tail: Seq<char>)
    requires
        blank(tail),
    ensures
        trim_end(rest + tail) == trim_end(rest),
    decreases tail.len(),
{
    if tail.len() == 0 {
        assert(rest + tail == rest);
    } else {
        assert((rest + tail).last() == tail.last());
        assert((rest + tail).drop_last() == rest + tail.drop_last());
        assert forall|i: int| 0 <= i < tail.drop_last().len() implies white_space(
            #[trigger] tail.drop_last()[i],
        ) by {
            assert(tail.drop_last()[i] == tail[i]);
        }
        lemma_trim_end_of_blank(rest, tail.drop_last());
    }
}

/// The number that a sequence of decimal digits stands for.
pub open spec fn numeral_value(s: Seq<char>) -> int
    decreases s.len(),
{
    if s.len() == 0 {
        0
    } else {
        10 * numeral_value(s.drop_last()) + (s.last() as int - '0' as int)
    }
}

/// A number in decimal is made of digits, stands for that number, and starts with no zero unless
/// it is zero.
pub proof fn law_decimal_stands_for_its_number(n: nat)
    ensures
        numeral_value(decimal(n)) == n,
        forall|i: int| 0 <= i < decimal(n).len() ==> '0' <= #[trigger] decimal(n)[i] <= '9',
        decimal(n)[0] == '0' <==> n == 0,
        n == 0 ==> decimal(n).len() == 1,
        decimal(n).len() > 0,
    decreases n,
{
    if n < 10 {
        assert(decimal(n).drop_last() == Seq::<char>::empty());
        assert(decimal(n).last() as int == 48 + n);
        assert(numeral_value(decimal(n).drop_last()) == 0);
    } else {
        law_decimal_stands_for_its_number(n / 10);
        assert(decimal(n).drop_last() == decimal(n / 10));
        assert(decimal(n)[0] == decimal(n / 10)[0]);
        assert(decimal(n).last() as int == 48 + n % 10);
        assert forall|i: int| 0 <= i < decimal(n).len() implies '0' <= #[trigger] decimal(n)[i]
            <= '9' by {
            if i < decimal(n / 10).len() {
                assert(decimal(n)[i] == decimal(n / 10)[i]);
            }
        }
    }
}

/// Different numbers are written differently.
pub proof fn law_decimals_differ(a: nat, b: nat)
    ensures
        decimal(a) == decimal(b) <==> a == b,
{
    law_decimal_stands_for_its_number(a);
    law_decimal_stands_for_its_number(b);
}

/// The contents of a list are those of its strings, one for one.
pub proof fn law_contents(list: Seq<String>)
    ensures
        contents(list).len() == list.len(),
        forall|i: int| 0 <= i < list.len() ==> (#[trigger] contents(list)[i]) == list[i]@,
{
}

} // verus!
