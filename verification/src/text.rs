//! Character-level helpers shared by the log formatting and the host rules.
//!
//! Text is handled as sequences of `char`: the specifications speak of
//! `Seq<char>`, the code of `Vec<char>`, and `String` appears only at the
//! edges.

use vstd::prelude::*;

verus! {

/// The characters with the Unicode `White_Space` property, which is what
/// `char::is_whitespace`, `str::split_whitespace` and `str::trim` go by:
/// U+0009 to U+000D, U+0020, U+0085, U+00A0, U+1680, U+2000 to U+200A,
/// U+2028, U+2029, U+202F, U+205F and U+3000.
pub open spec fn char_is_whitespace(c: char) -> bool {
    let n = c as u32;
    ||| 0x9 <= n <= 0xD
    ||| n == 0x20
    ||| n == 0x85
    ||| n == 0xA0
    ||| n == 0x1680
    ||| 0x2000 <= n <= 0x200A
    ||| n == 0x2028
    ||| n == 0x2029
    ||| n == 0x202F
    ||| n == 0x205F
    ||| n == 0x3000
}

/// Whether a character is whitespace (see `char_is_whitespace`).
pub(crate) fn is_whitespace(c: char) -> (r: bool)
    ensures
        r == char_is_whitespace(c),
{
    let n = c as u32;
    (0x9 <= n && n <= 0xD) || n == 0x20 || n == 0x85 || n == 0xA0 || n == 0x1680 || (0x2000 <= n
        && n <= 0x200A) || n == 0x2028 || n == 0x2029 || n == 0x202F || n == 0x205F || n == 0x3000
}

/// Calls `String::from_iter` on the characters of a slice. Claimed: the
/// string holds exactly those characters, in order.
#[verifier::external_body]
pub(crate) fn string_of(v: &[char]) -> (s: String)
    ensures
        s@ == v@,
{
    v.iter().collect()
}

/// The characters of a string slice, in order.
pub(crate) fn chars_of(s: &str) -> (v: Vec<char>)
    ensures
        v@ == s@,
{
    broadcast use vstd::string::group_string_axioms;

    let mut v: Vec<char> = Vec::new();
    for c in it: s.chars()
        invariant
            v@ == it.seq().take(it.index() as int),
            it.seq() == s@,
    {
        v.push(c);
    }
    v
}

/// Appends the characters of `tail` to `out`.
pub(crate) fn push_all(out: &mut Vec<char>, tail: &Vec<char>)
    ensures
        final(out)@ == old(out)@ + tail@,
{
    let mut i: usize = 0;
    while i < tail.len()
        invariant
            i <= tail.len(),
            out@ == old(out)@ + tail@.take(i as int),
        decreases tail.len() - i,
    {
        proof {
            assert(tail@.take(i + 1) =~= tail@.take(i as int).push(tail@[i as int]));
        }
        out.push(tail[i]);
        i = i + 1;
    }
    proof {
        assert(tail@.take(tail.len() as int) =~= tail@);
    }
}

/// Appends the characters of a string slice to `out`.
pub(crate) fn push_str(out: &mut Vec<char>, tail: &str)
    ensures
        final(out)@ == old(out)@ + tail@,
{
    let cs = chars_of(tail);
    push_all(out, &cs);
}

// ---------------------------------------------------------------------------
// Whitespace

/// The text with its whitespace collapsed, as `split_whitespace` followed by
/// `join(" ")` leaves it: every maximal run of non-whitespace characters is a
/// word, and the words stand in order with one space between two of them.
/// Written by its last character: a whitespace character adds nothing; a
/// character that follows whitespace and is not the first of the result
/// starts a new word after a space; any other one extends the current word.
pub open spec fn collapse_ws(s: Seq<char>) -> Seq<char>
    decreases s.len(),
{
    if s.len() == 0 {
        Seq::empty()
    } else {
        let p = s.drop_last();
        let c = s.last();
        let r = collapse_ws(p);
        if char_is_whitespace(c) {
            r
        } else if r.len() > 0 && char_is_whitespace(p.last()) {
            r.push(' ').push(c)
        } else {
            r.push(c)
        }
    }
}

/// The marker that ends a clipped text.
pub open spec fn ellipsis() -> Seq<char> {
    seq!['.', '.', '.']
}

/// What `clip_for_log` makes of a text: the collapsed text, cut to its first
/// `max` characters and marked with `...` when it is longer than that.
pub open spec fn clip_spec(s: Seq<char>, max: nat) -> Seq<char> {
    let c = collapse_ws(s);
    if c.len() > max {
        c.take(max as int) + ellipsis()
    } else {
        c
    }
}

/// A text made of whitespace alone (the empty text among them): what
/// `str::trim` leaves empty.
pub open spec fn is_blank(s: Seq<char>) -> bool {
    forall|i: int| 0 <= i < s.len() ==> char_is_whitespace(#[trigger] s[i])
}

/// Collapses the whitespace of a character sequence.
pub(crate) fn collapse_whitespace(s: &Vec<char>) -> (r: Vec<char>)
    ensures
        r@ == collapse_ws(s@),
{
    let mut out: Vec<char> = Vec::new();
    let mut prev_ws = false;
    let mut i: usize = 0;
    proof {
        assert(s@.take(0) =~= Seq::<char>::empty());
    }
    while i < s.len()
        invariant
            i <= s.len(),
            out@ == collapse_ws(s@.take(i as int)),
            i > 0 ==> prev_ws == char_is_whitespace(s@[i - 1]),
        decreases s.len() - i,
    {
        let c = s[i];
        let ws = is_whitespace(c);
        proof {
            let t = s@.take(i + 1);
            assert(t.drop_last() =~= s@.take(i as int));
            assert(t.last() == c);
            if i > 0 {
                assert(t.drop_last().last() == s@[i - 1]);
            }
        }
        if ws {
        } else if out.len() > 0 && prev_ws {
            out.push(' ');
            out.push(c);
        } else {
            out.push(c);
        }
        prev_ws = ws;
        i = i + 1;
    }
    proof {
        assert(s@.take(s.len() as int) =~= s@);
    }
    out
}

/// Whether a character sequence is whitespace alone.
pub(crate) fn blank(s: &Vec<char>) -> (r: bool)
    ensures
        r == is_blank(s@),
{
    let mut i: usize = 0;
    while i < s.len()
        invariant
            i <= s.len(),
            forall|j: int| 0 <= j < i ==> char_is_whitespace(#[trigger] s@[j]),
        decreases s.len() - i,
    {
        if !is_whitespace(s[i]) {
            return false;
        }
        i = i + 1;
    }
    true
}

/// The first `n` characters of a sequence (all of them when it is shorter).
pub(crate) fn take_chars(s: &Vec<char>, n: usize) -> (r: Vec<char>)
    ensures
        r@ == (if s@.len() > n { s@.take(n as int) } else { s@ }),
{
    let mut out: Vec<char> = Vec::new();
    let mut i: usize = 0;
    while i < s.len() && i < n
        invariant
            i <= s.len(),
            i <= n,
            out@ == s@.take(i as int),
        decreases s.len() - i,
    {
        proof {
            assert(s@.take(i + 1) =~= s@.take(i as int).push(s@[i as int]));
        }
        out.push(s[i]);
        i = i + 1;
    }
    proof {
        if s@.len() <= n {
            assert(s@.take(i as int) =~= s@);
        }
    }
    out
}

/// Clipped characters of a text, as `clip_for_log` returns them.
pub(crate) fn clip_chars(value: &str, max_chars: usize) -> (r: Vec<char>)
    ensures
        r@ == clip_spec(value@, max_chars as nat),
{
    let chars = chars_of(value);
    let collapsed = collapse_whitespace(&chars);
    let mut out = take_chars(&collapsed, max_chars);
    if collapsed.len() > max_chars {
        out.push('.');
        out.push('.');
        out.push('.');
        proof {
            assert(out@ =~= collapsed@.take(max_chars as int) + ellipsis());
        }
    }
    out
}

/// A clipped text is never longer than the limit and the three characters
/// of the `...` marker.
pub proof fn clipped_text_is_bounded(s: Seq<char>, max: nat)
    ensures
        clip_spec(s, max).len() <= max + 3,
{
}

/// A text in word form: every character is a space or not whitespace, it
/// does not start with a space, and no two spaces stand together. A
/// trailing space is allowed.
pub open spec fn word_form(t: Seq<char>) -> bool {
    &&& forall|i: int| 0 <= i < t.len() ==> (#[trigger] t[i] == ' ' || !char_is_whitespace(t[i]))
    &&& t.len() > 0 ==> t[0] != ' '
    &&& forall|i: int| 0 <= i < t.len() - 1 ==> !(#[trigger] t[i] == ' ' && t[i + 1] == ' ')
}

/// A text in collapsed form: word form without a trailing space. No tab,
/// newline or other whitespace but single spaces between words.
pub open spec fn collapsed_form(t: Seq<char>) -> bool {
    word_form(t) && (t.len() > 0 ==> t.last() != ' ')
}

/// Collapsing whitespace leaves a text in collapsed form.
pub proof fn collapse_gives_collapsed_form(s: Seq<char>)
    ensures
        collapsed_form(collapse_ws(s)),
    decreases s.len(),
{
    if s.len() > 0 {
        let p = s.drop_last();
        let c = s.last();
        let r = collapse_ws(p);
        collapse_gives_collapsed_form(p);
        if !char_is_whitespace(c) {
            if r.len() > 0 && char_is_whitespace(p.last()) {
                let t = r.push(' ').push(c);
                assert(t[r.len() as int] == ' ');
                assert forall|i: int| 0 <= i < t.len() implies (#[trigger] t[i] == ' '
                    || !char_is_whitespace(t[i])) by {
                    if i < r.len() {
                        assert(t[i] == r[i]);
                    }
                }
                assert forall|i: int| 0 <= i < t.len() - 1 implies !(#[trigger] t[i] == ' ' && t[i
                    + 1] == ' ') by {
                    if i < r.len() - 1 {
                        assert(t[i] == r[i] && t[i + 1] == r[i + 1]);
                    } else if i == r.len() - 1 {
                        assert(t[i] == r.last());
                    }
                }
                assert(t[0] == r[0]);
            } else {
                let t = r.push(c);
                assert forall|i: int| 0 <= i < t.len() implies (#[trigger] t[i] == ' '
                    || !char_is_whitespace(t[i])) by {
                    if i < r.len() {
                        assert(t[i] == r[i]);
                    }
                }
                assert forall|i: int| 0 <= i < t.len() - 1 implies !(#[trigger] t[i] == ' ' && t[i
                    + 1] == ' ') by {
                    if i < r.len() - 1 {
                        assert(t[i] == r[i] && t[i + 1] == r[i + 1]);
                    } else if i == r.len() - 1 {
                        assert(t[i] == r.last());
                    }
                }
                if r.len() > 0 {
                    assert(t[0] == r[0]);
                }
            }
        }
    }
}

/// Collapsing a text in word form only drops its trailing space, if it has
/// one.
proof fn collapse_of_word_form(t: Seq<char>)
    requires
        word_form(t),
    ensures
        collapse_ws(t) == (if t.len() > 0 && t.last() == ' ' {
            t.drop_last()
        } else {
            t
        }),
    decreases t.len(),
{
    if t.len() > 0 {
        let p = t.drop_last();
        let c = t.last();
        assert forall|i: int| 0 <= i < p.len() implies (#[trigger] p[i] == ' ' || !char_is_whitespace(
            p[i],
        )) by {
            assert(p[i] == t[i]);
        }
        assert forall|i: int| 0 <= i < p.len() - 1 implies !(#[trigger] p[i] == ' ' && p[i + 1]
            == ' ') by {
            assert(p[i] == t[i] && p[i + 1] == t[i + 1]);
        }
        if p.len() > 0 {
            assert(p[0] == t[0]);
        }
        collapse_of_word_form(p);
        assert(char_is_whitespace(' '));
        assert(t[t.len() - 1] == ' ' || !char_is_whitespace(t[t.len() - 1]));
        if c == ' ' {
            if p.len() > 0 {
                assert(p.last() == t[t.len() - 2]);
                assert(p.last() != ' ');
            }
        } else {
            if p.len() > 0 && p.last() == ' ' {
                assert(p.last() == t[t.len() - 2]);
                let q = p.drop_last();
                if q.len() == 0 {
                    assert(t[0] == ' ');
                }
                assert(q.push(' ').push(c) =~= t);
            } else {
                if p.len() > 0 {
                    assert(p.last() == t[t.len() - 2]);
                }
                assert(p.push(c) =~= t);
            }
        }
    }
}

/// A text in collapsed form is left as it is by collapsing.
proof fn collapse_of_collapsed_form(t: Seq<char>)
    requires
        collapsed_form(t),
    ensures
        collapse_ws(t) == t,
{
    collapse_of_word_form(t);
}

/// A clipped text is in collapsed form: whatever the input held, no tab,
/// newline or other whitespace reaches the log but single spaces between
/// words, and the text neither starts nor ends with a space.
pub proof fn clipped_text_is_collapsed(s: Seq<char>, max: nat)
    ensures
        collapsed_form(clip_spec(s, max)),
{
    let c = collapse_ws(s);
    collapse_gives_collapsed_form(s);
    if c.len() > max {
        clipped_marked_form(c, max);
    }
}

/// A collapsed text cut to `max` characters and marked with `...` is in
/// collapsed form.
proof fn clipped_marked_form(c: Seq<char>, max: nat)
    requires
        collapsed_form(c),
        c.len() > max,
    ensures
        collapsed_form(c.take(max as int) + ellipsis()),
{
    let r = c.take(max as int) + ellipsis();
    assert(!char_is_whitespace('.'));
    assert forall|i: int| 0 <= i < r.len() implies (#[trigger] r[i] == ' ' || !char_is_whitespace(
        r[i],
    )) by {
        if i < max {
            assert(r[i] == c[i]);
        } else {
            assert(r[i] == '.');
        }
    }
    assert forall|i: int| 0 <= i < r.len() - 1 implies !(#[trigger] r[i] == ' ' && r[i + 1] == ' ') by {
        if i < max - 1 {
            assert(r[i] == c[i] && r[i + 1] == c[i + 1]);
        } else {
            assert(r[i + 1] == '.');
        }
    }
    if max > 0 {
        assert(r[0] == c[0]);
    } else {
        assert(r[0] == '.');
    }
    assert(r.last() == '.');
}

/// Clipping a clipped text again with the same limit changes nothing.
pub proof fn clipping_twice_changes_nothing(s: Seq<char>, max: nat)
    ensures
        clip_spec(clip_spec(s, max), max) == clip_spec(s, max),
{
    let c = collapse_ws(s);
    collapse_gives_collapsed_form(s);
    if c.len() > max {
        let r = c.take(max as int) + ellipsis();
        clipped_marked_form(c, max);
        collapse_of_collapsed_form(r);
        assert(r.take(max as int) =~= c.take(max as int));
    } else {
        collapse_of_collapsed_form(c);
    }
}

/// Collapses the whitespace of `value` to single spaces between its words
/// and keeps at most `max_chars` characters of the result, marking a cut
/// with `...`.
pub fn clip_for_log(value: &str, max_chars: usize) -> (r: String)
    ensures
        r@ == clip_spec(value@, max_chars as nat),
{
    let out = clip_chars(value, max_chars);
    string_of(out.as_slice())
}


// ---------------------------------------------------------------------------
// Numbers

/// The character of a decimal digit.
pub open spec fn digit_char(d: nat) -> char {
    (d + 48) as char
}

/// The decimal notation of a natural number, without sign or leading zeros.
pub open spec fn decimal(n: nat) -> Seq<char>
    decreases n,
{
    if n < 10 {
        seq![digit_char(n)]
    } else {
        decimal(n / 10).push(digit_char(n % 10))
    }
}

/// Appends the decimal notation of `n` to `out`.
pub(crate) fn push_decimal(out: &mut Vec<char>, n: u128)
    ensures
        final(out)@ == old(out)@ + decimal(n as nat),
    decreases n,
{
    if n >= 10 {
        push_decimal(out, n / 10);
    }
    let d: u8 = (n % 10) as u8;
    let c: char = (d + 48u8) as char;
    proof {
        assert(c == digit_char((n % 10) as nat));
    }
    out.push(c);
    proof {
        if n >= 10 {
            assert(decimal(n as nat) == decimal((n / 10) as nat).push(digit_char((n % 10) as nat)));
        }
    }
}

// ---------------------------------------------------------------------------
// Case

/// `char::to_ascii_lowercase`: the letters `A` to `Z` become `a` to `z`, any
/// other character stays.
pub open spec fn lower_char(c: char) -> char {
    if 'A' <= c && c <= 'Z' {
        ((c as u32) + 32) as char
    } else {
        c
    }
}

/// `str::to_ascii_lowercase`, character by character.
pub open spec fn ascii_lower(s: Seq<char>) -> Seq<char> {
    Seq::new(s.len(), |i: int| lower_char(s[i]))
}

/// The ASCII lower case of a character sequence.
pub(crate) fn lower_chars(s: &Vec<char>) -> (r: Vec<char>)
    ensures
        r@ == ascii_lower(s@),
{
    let mut out: Vec<char> = Vec::new();
    let mut i: usize = 0;
    while i < s.len()
        invariant
            i <= s.len(),
            out@.len() == i,
            forall|j: int| 0 <= j < i ==> out@[j] == lower_char(#[trigger] s@[j]),
        decreases s.len() - i,
    {
        let c = s[i];
        if 'A' <= c && c <= 'Z' {
            let b: u8 = (c as u32 + 32) as u8;
            let l: char = b as char;
            proof {
                assert(l == lower_char(c));
            }
            out.push(l);
        } else {
            out.push(c);
        }
        i = i + 1;
    }
    proof {
        assert(out@ =~= ascii_lower(s@));
    }
    out
}

// ---------------------------------------------------------------------------
// Matching

/// `pat` stands in `s` from position `start` on.
pub open spec fn occurs_at(s: Seq<char>, start: int, pat: Seq<char>) -> bool {
    0 <= start && start + pat.len() <= s.len() && s.subrange(start, start + pat.len()) == pat
}

/// `str::contains` with a string pattern.
pub open spec fn contains_seq(s: Seq<char>, pat: Seq<char>) -> bool {
    exists|i: int| occurs_at(s, i, pat)
}

/// `str::ends_with` with a string pattern.
pub open spec fn ends_with(s: Seq<char>, pat: Seq<char>) -> bool {
    occurs_at(s, s.len() - pat.len(), pat)
}

/// Whether `pat` stands in `s` from position `start` on.
pub(crate) fn occurs_at_exec(s: &Vec<char>, start: usize, pat: &Vec<char>) -> (r: bool)
    ensures
        r == occurs_at(s@, start as int, pat@),
{
    if pat.len() > s.len() || start > s.len() - pat.len() {
        return false;
    }
    let mut j: usize = 0;
    while j < pat.len()
        invariant
            j <= pat.len(),
            start + pat.len() <= s.len(),
            forall|k: int| 0 <= k < j ==> s@[start + k] == pat@[k],
        decreases pat.len() - j,
    {
        if s[start + j] != pat[j] {
            proof {
                assert(s@.subrange(start as int, start + pat.len())[j as int] != pat@[j as int]);
            }
            return false;
        }
        j = j + 1;
    }
    proof {
        assert(s@.subrange(start as int, start + pat.len()) =~= pat@);
    }
    true
}

/// Whether two character sequences are equal.
pub(crate) fn same_chars(a: &Vec<char>, b: &Vec<char>) -> (r: bool)
    ensures
        r == (a@ == b@),
{
    if a.len() != b.len() {
        return false;
    }
    let r = occurs_at_exec(a, 0, b);
    proof {
        if r {
            assert(a@.subrange(0, b@.len() as int) =~= a@);
        } else {
            assert(!occurs_at(a@, 0, b@));
            if a@ == b@ {
                assert(a@.subrange(0, b@.len() as int) =~= a@);
            }
        }
    }
    r
}

/// Whether two string slices hold the same characters.
pub(crate) fn str_eq(a: &str, b: &str) -> (r: bool)
    ensures
        r == (a@ == b@),
{
    let x = chars_of(a);
    let y = chars_of(b);
    same_chars(&x, &y)
}

/// Whether `s` ends with `pat`.
pub(crate) fn ends_with_exec(s: &Vec<char>, pat: &Vec<char>) -> (r: bool)
    ensures
        r == ends_with(s@, pat@),
{
    if pat.len() > s.len() {
        return false;
    }
    occurs_at_exec(s, s.len() - pat.len(), pat)
}

/// Whether `pat` stands somewhere in `s`.
pub(crate) fn contains_exec(s: &Vec<char>, pat: &Vec<char>) -> (r: bool)
    ensures
        r == contains_seq(s@, pat@),
{
    if pat.len() > s.len() {
        return false;
    }
    if pat.len() == 0 {
        proof {
            assert(s@.subrange(0, 0) =~= pat@);
            assert(occurs_at(s@, 0, pat@));
        }
        return true;
    }
    let last = s.len() - pat.len();
    let mut i: usize = 0;
    while i <= last
        invariant
            last == s.len() - pat.len(),
            last < s.len(),
            i <= last + 1,
            forall|k: int| 0 <= k < i ==> !occurs_at(s@, k, pat@),
        decreases last + 1 - i,
    {
        if occurs_at_exec(s, i, pat) {
            return true;
        }
        i = i + 1;
    }
    false
}

// ---------------------------------------------------------------------------
// Lists

/// The parts with `sep` between two neighbours, as `join` writes them.
pub open spec fn join(parts: Seq<Seq<char>>, sep: Seq<char>) -> Seq<char>
    decreases parts.len(),
{
    if parts.len() == 0 {
        Seq::empty()
    } else if parts.len() == 1 {
        parts[0]
    } else {
        join(parts.drop_last(), sep) + sep + parts.last()
    }
}

/// Where the part numbered `i` starts in `join(parts, sep)`.
pub open spec fn join_offset(parts: Seq<Seq<char>>, sep: Seq<char>, i: nat) -> nat
    decreases i,
{
    if i == 0 {
        0
    } else {
        join_offset(parts, sep, (i - 1) as nat) + parts[i - 1].len() + sep.len()
    }
}

proof fn join_offset_of_init(parts: Seq<Seq<char>>, sep: Seq<char>, i: nat)
    requires
        parts.len() > 0,
        i < parts.len(),
    ensures
        join_offset(parts.drop_last(), sep, i) == join_offset(parts, sep, i),
    decreases i,
{
    if i > 0 {
        join_offset_of_init(parts, sep, (i - 1) as nat);
        assert(parts.drop_last()[i - 1] == parts[i - 1]);
    }
}

proof fn join_length(parts: Seq<Seq<char>>, sep: Seq<char>)
    requires
        parts.len() > 0,
    ensures
        join(parts, sep).len() + sep.len() == join_offset(parts, sep, parts.len()),
    decreases parts.len(),
{
    let n = parts.len();
    assert(join_offset(parts, sep, n) == join_offset(parts, sep, (n - 1) as nat) + parts[n - 1].len()
        + sep.len());
    if n > 1 {
        let init = parts.drop_last();
        join_length(init, sep);
        join_offset_of_init(parts, sep, init.len());
        assert(join(parts, sep) == join(init, sep) + sep + parts.last());
    } else {
        assert(join_offset(parts, sep, 0) == 0);
    }
}

/// Each part stands in the joined text at its offset, with the separator
/// just before it when it is not the first.
pub proof fn join_places_every_part(parts: Seq<Seq<char>>, sep: Seq<char>, i: nat)
    requires
        i < parts.len(),
    ensures
        occurs_at(join(parts, sep), join_offset(parts, sep, i) as int, parts[i as int]),
        i > 0 ==> occurs_at(join(parts, sep), join_offset(parts, sep, i) - sep.len(), sep),
    decreases parts.len(),
{
    let j = join(parts, sep);
    if parts.len() == 1 {
        assert(j.subrange(0, parts[0].len() as int) =~= parts[0]);
    } else {
        let init = parts.drop_last();
        let ji = join(init, sep);
        assert(j == ji + sep + parts.last());
        join_length(init, sep);
        join_offset_of_init(parts, sep, init.len());
        if i < init.len() {
            join_places_every_part(init, sep, i);
            join_offset_of_init(parts, sep, i);
            let o = join_offset(parts, sep, i) as int;
            assert(init[i as int] == parts[i as int]);
            assert(j.subrange(o, o + parts[i as int].len()) =~= ji.subrange(o, o + parts[i as int].len()));
            if i > 0 {
                assert(j.subrange(o - sep.len(), o) =~= ji.subrange(o - sep.len(), o));
            }
        } else {
            let o = join_offset(parts, sep, i) as int;
            assert(o == ji.len() + sep.len());
            assert(j.subrange(o, o + parts[i as int].len()) =~= parts.last());
            assert(j.subrange(o - sep.len(), o) =~= sep);
        }
    }
}

/// Each part of a joined text that is not the first stands in it right
/// after a separator.
pub proof fn join_contains_later_parts(parts: Seq<Seq<char>>, sep: Seq<char>, i: nat)
    requires
        0 < i < parts.len(),
    ensures
        contains_seq(join(parts, sep), sep + parts[i as int]),
{
    join_places_every_part(parts, sep, i);
    let j = join(parts, sep);
    let o = join_offset(parts, sep, i) as int;
    let start = o - sep.len();
    let pat = sep + parts[i as int];
    assert(j.subrange(start, start + pat.len()) =~= j.subrange(start, o) + j.subrange(
        o,
        o + parts[i as int].len(),
    ));
    assert(occurs_at(j, start, pat));
}

/// The items in order of first appearance, each once.
pub open spec fn dedup(s: Seq<Seq<char>>) -> Seq<Seq<char>>
    decreases s.len(),
{
    if s.len() == 0 {
        Seq::empty()
    } else {
        let d = dedup(s.drop_last());
        if d.contains(s.last()) {
            d
        } else {
            d.push(s.last())
        }
    }
}

/// Joins character sequences with a separator.
pub(crate) fn join_chars(parts: &Vec<Vec<char>>, sep: &Vec<char>) -> (r: Vec<char>)
    ensures
        r@ == join(parts@.map_values(|p: Vec<char>| p@), sep@),
{
    let ghost pv = parts@.map_values(|p: Vec<char>| p@);
    let mut out: Vec<char> = Vec::new();
    let mut i: usize = 0;
    while i < parts.len()
        invariant
            i <= parts.len(),
            pv == parts@.map_values(|p: Vec<char>| p@),
            out@ == join(pv.take(i as int), sep@),
        decreases parts.len() - i,
    {
        proof {
            assert(pv.take(i + 1).drop_last() =~= pv.take(i as int));
            assert(pv.take(i + 1).last() == parts@[i as int]@);
            if i == 0 {
                assert(pv.take(1)[0] == parts@[0]@);
            }
        }
        if i > 0 {
            push_all(&mut out, sep);
        }
        push_all(&mut out, &parts[i]);
        i = i + 1;
    }
    proof {
        assert(pv.take(parts.len() as int) =~= pv);
    }
    out
}

} // verus!
