//! Verified helpers for working with `&str` and `String` values
//! character by character: comparison, searching, splitting into
//! lines and tokens, trimming, ASCII case mapping and decimal
//! formatting.

use vstd::prelude::*;
use vstd::string::StrSliceExecFns;

verus! {

/// The views of a sequence of owned strings.
pub open spec fn str_views(ss: Seq<String>) -> Seq<Seq<char>> {
    ss.map_values(|s: String| s@)
}

/// ASCII whitespace, the set this library trims around header
/// names, header values and metadata values.
pub open spec fn is_ws(c: char) -> bool {
    c == ' ' || c == '\t' || c == '\r' || c == '\n'
}

/// Characters stripped around a metadata value: whitespace and
/// single or double quotes.
pub open spec fn trimmable(c: char, quotes: bool) -> bool {
    is_ws(c) || (quotes && (c == '"' || c == '\''))
}

fn trimmable_exec(c: char, quotes: bool) -> (r: bool)
    ensures
        r == trimmable(c, quotes),
{
    c == ' ' || c == '\t' || c == '\r' || c == '\n' || (quotes && (c == '"' || c == '\''))
}

/// ASCII lower-casing of one character; other characters are kept.
pub open spec fn lower_char(c: char) -> char {
    match c {
        'A' => 'a',
        'B' => 'b',
        'C' => 'c',
        'D' => 'd',
        'E' => 'e',
        'F' => 'f',
        'G' => 'g',
        'H' => 'h',
        'I' => 'i',
        'J' => 'j',
        'K' => 'k',
        'L' => 'l',
        'M' => 'm',
        'N' => 'n',
        'O' => 'o',
        'P' => 'p',
        'Q' => 'q',
        'R' => 'r',
        'S' => 's',
        'T' => 't',
        'U' => 'u',
        'V' => 'v',
        'W' => 'w',
        'X' => 'x',
        'Y' => 'y',
        'Z' => 'z',
        _ => c,
    }
}

/// ASCII upper-casing of one character; other characters are kept.
pub open spec fn upper_char(c: char) -> char {
    match c {
        'a' => 'A',
        'b' => 'B',
        'c' => 'C',
        'd' => 'D',
        'e' => 'E',
        'f' => 'F',
        'g' => 'G',
        'h' => 'H',
        'i' => 'I',
        'j' => 'J',
        'k' => 'K',
        'l' => 'L',
        'm' => 'M',
        'n' => 'N',
        'o' => 'O',
        'p' => 'P',
        'q' => 'Q',
        'r' => 'R',
        's' => 'S',
        't' => 'T',
        'u' => 'U',
        'v' => 'V',
        'w' => 'W',
        'x' => 'X',
        'y' => 'Y',
        'z' => 'Z',
        _ => c,
    }
}

fn lower_char_exec(c: char) -> (r: char)
    ensures
        r == lower_char(c),
{
    match c {
        'A' => 'a',
        'B' => 'b',
        'C' => 'c',
        'D' => 'd',
        'E' => 'e',
        'F' => 'f',
        'G' => 'g',
        'H' => 'h',
        'I' => 'i',
        'J' => 'j',
        'K' => 'k',
        'L' => 'l',
        'M' => 'm',
        'N' => 'n',
        'O' => 'o',
        'P' => 'p',
        'Q' => 'q',
        'R' => 'r',
        'S' => 's',
        'T' => 't',
        'U' => 'u',
        'V' => 'v',
        'W' => 'w',
        'X' => 'x',
        'Y' => 'y',
        'Z' => 'z',
        _ => c,
    }
}

fn upper_char_exec(c: char) -> (r: char)
    ensures
        r == upper_char(c),
{
    match c {
        'a' => 'A',
        'b' => 'B',
        'c' => 'C',
        'd' => 'D',
        'e' => 'E',
        'f' => 'F',
        'g' => 'G',
        'h' => 'H',
        'i' => 'I',
        'j' => 'J',
        'k' => 'K',
        'l' => 'L',
        'm' => 'M',
        'n' => 'N',
        'o' => 'O',
        'p' => 'P',
        'q' => 'Q',
        'r' => 'R',
        's' => 'S',
        't' => 'T',
        'u' => 'U',
        'v' => 'V',
        'w' => 'W',
        'x' => 'X',
        'y' => 'Y',
        'z' => 'Z',
        _ => c,
    }
}

/// ASCII lower-casing of a whole character sequence.
pub open spec fn lower_of(s: Seq<char>) -> Seq<char> {
    s.map_values(|c: char| lower_char(c))
}

/// ASCII upper-casing of a whole character sequence.
pub open spec fn upper_of(s: Seq<char>) -> Seq<char> {
    s.map_values(|c: char| upper_char(c))
}

/// Relies on `String::from_utf8` from std: it succeeds exactly on
/// valid UTF-8 input and yields the characters those bytes encode,
/// stated through vstd's model of UTF-8.
#[verifier::external_body]
pub fn utf8_to_string(b: &Vec<u8>) -> (r: Option<String>)
    ensures
        r is Some <==> vstd::utf8::valid_utf8(b@),
        r matches Some(s) ==> s@ == vstd::utf8::decode_utf8(b@),
{
    match String::from_utf8(b.clone()) {
        Ok(s) => Some(s),
        Err(_) => None,
    }
}

/// Relies on `String::push` from std: it appends exactly the given
/// character at the end of the string.
#[verifier::external_body]
pub fn push_char(s: &mut String, c: char)
    ensures
        final(s)@ == old(s)@.push(c),
{
    s.push(c);
}

/// Builds the ASCII lower-cased copy of a string slice.
pub fn to_lower(s: &str) -> (r: String)
    ensures
        r@ == lower_of(s@),
{
    let n = s.unicode_len();
    let mut r = String::new();
    let mut i: usize = 0;
    while i < n
        invariant
            i <= n,
            n == s@.len(),
            r@ == lower_of(s@.take(i as int)),
        decreases n - i,
    {
        let c = lower_char_exec(s.get_char(i));
        push_char(&mut r, c);
        proof {
            assert(s@.take(i + 1 as int) =~= s@.take(i as int).push(s@[i as int]));
            assert(lower_of(s@.take(i + 1 as int)) =~= lower_of(s@.take(i as int)).push(
                lower_char(s@[i as int]),
            ));
        }
        i += 1;
    }
    proof {
        assert(s@.take(n as int) =~= s@);
    }
    r
}

/// Builds the ASCII upper-cased copy of a string slice.
pub fn to_upper(s: &str) -> (r: String)
    ensures
        r@ == upper_of(s@),
{
    let n = s.unicode_len();
    let mut r = String::new();
    let mut i: usize = 0;
    while i < n
        invariant
            i <= n,
            n == s@.len(),
            r@ == upper_of(s@.take(i as int)),
        decreases n - i,
    {
        let c = upper_char_exec(s.get_char(i));
        push_char(&mut r, c);
        proof {
            assert(s@.take(i + 1 as int) =~= s@.take(i as int).push(s@[i as int]));
            assert(upper_of(s@.take(i + 1 as int)) =~= upper_of(s@.take(i as int)).push(
                upper_char(s@[i as int]),
            ));
        }
        i += 1;
    }
    proof {
        assert(s@.take(n as int) =~= s@);
    }
    r
}

/// Compares two string slices character by character.
pub fn str_eq(a: &str, b: &str) -> (r: bool)
    ensures
        r == (a@ == b@),
{
    let alen = a.unicode_len();
    let blen = b.unicode_len();
    if alen != blen {
        return false;
    }
    let mut i: usize = 0;
    while i < alen
        invariant
            i <= alen,
            alen == a@.len(),
            alen == b@.len(),
            forall|j: int| 0 <= j < i ==> a@[j] == b@[j],
        decreases alen - i,
    {
        if a.get_char(i) != b.get_char(i) {
            return false;
        }
        i += 1;
    }
    proof {
        assert(a@ =~= b@);
    }
    true
}

/// The sequence with leading trimmable characters removed.
pub open spec fn trim_front(s: Seq<char>, quotes: bool) -> Seq<char>
    decreases s.len(),
{
    if s.len() > 0 && trimmable(s[0], quotes) {
        trim_front(s.drop_first(), quotes)
    } else {
        s
    }
}

/// The sequence with trailing trimmable characters removed.
pub open spec fn trim_back(s: Seq<char>, quotes: bool) -> Seq<char>
    decreases s.len(),
{
    if s.len() > 0 && trimmable(s.last(), quotes) {
        trim_back(s.drop_last(), quotes)
    } else {
        s
    }
}

/// The sequence with trimmable characters removed from both ends.
pub open spec fn spec_trim(s: Seq<char>, quotes: bool) -> Seq<char> {
    trim_back(trim_front(s, quotes), quotes)
}

fn trim_front_exec(s: &str, quotes: bool) -> (r: String)
    ensures
        r@ == trim_front(s@, quotes),
    decreases s@.len(),
{
    let n = s.unicode_len();
    if n > 0 && trimmable_exec(s.get_char(0), quotes) {
        let rest = s.substring_char(1, n);
        proof {
            assert(rest@ =~= s@.drop_first());
        }
        trim_front_exec(rest, quotes)
    } else {
        s.to_owned()
    }
}

fn trim_back_exec(s: &str, quotes: bool) -> (r: String)
    ensures
        r@ == trim_back(s@, quotes),
    decreases s@.len(),
{
    let n = s.unicode_len();
    if n > 0 && trimmable_exec(s.get_char(n - 1), quotes) {
        let rest = s.substring_char(0, n - 1);
        proof {
            assert(rest@ =~= s@.drop_last());
        }
        trim_back_exec(rest, quotes)
    } else {
        s.to_owned()
    }
}

/// Removes whitespace (and, when `quotes` is set, quote characters)
/// from both ends of a string slice.
pub fn trim_str(s: &str, quotes: bool) -> (r: String)
    ensures
        r@ == spec_trim(s@, quotes),
{
    let front = trim_front_exec(s, quotes);
    trim_back_exec(front.as_str(), quotes)
}

/// One decimal digit as a character.
pub open spec fn digit_char(d: nat) -> char {
    if d == 0 {
        '0'
    } else if d == 1 {
        '1'
    } else if d == 2 {
        '2'
    } else if d == 3 {
        '3'
    } else if d == 4 {
        '4'
    } else if d == 5 {
        '5'
    } else if d == 6 {
        '6'
    } else if d == 7 {
        '7'
    } else if d == 8 {
        '8'
    } else {
        '9'
    }
}

/// The decimal representation of a natural number, most significant
/// digit first, with no leading zeros (a single zero for 0).
pub open spec fn dec_str(n: nat) -> Seq<char>
    decreases n,
{
    if n < 10 {
        seq![digit_char(n)]
    } else {
        dec_str(n / 10) + seq![digit_char(n % 10)]
    }
}

fn digit_char_exec(d: u16) -> (r: char)
    requires
        d < 10,
    ensures
        r == digit_char(d as nat),
{
    if d == 0 {
        '0'
    } else if d == 1 {
        '1'
    } else if d == 2 {
        '2'
    } else if d == 3 {
        '3'
    } else if d == 4 {
        '4'
    } else if d == 5 {
        '5'
    } else if d == 6 {
        '6'
    } else if d == 7 {
        '7'
    } else if d == 8 {
        '8'
    } else {
        '9'
    }
}

/// Formats a status code (or any 16-bit number) in decimal.
pub fn u16_dec(n: u16) -> (r: String)
    ensures
        r@ == dec_str(n as nat),
    decreases n,
{
    let mut r = if n >= 10 {
        u16_dec(n / 10)
    } else {
        String::new()
    };
    let c = digit_char_exec(n % 10);
    push_char(&mut r, c);
    proof {
        if n < 10 {
            assert(r@ =~= dec_str(n as nat));
        } else {
            assert(r@ =~= dec_str((n / 10) as nat) + seq![digit_char((n % 10) as nat)]);
        }
    }
    r
}

/// The index of the first occurrence of `c` in `s`, or -1 when absent.
pub open spec fn first_index_of(s: Seq<char>, c: char) -> int
    decreases s.len(),
{
    if s.len() == 0 {
        -1
    } else if s[0] == c {
        0
    } else if first_index_of(s.drop_first(), c) < 0 {
        -1
    } else {
        1 + first_index_of(s.drop_first(), c)
    }
}

/// The index of the last occurrence of `c` in `s`, or -1 when absent.
pub open spec fn last_index_of(s: Seq<char>, c: char) -> int
    decreases s.len(),
{
    if s.len() == 0 {
        -1
    } else if s.last() == c {
        s.len() - 1
    } else {
        last_index_of(s.drop_last(), c)
    }
}

/// Finds the first occurrence of `c` in `s`.
pub fn find_char(s: &str, c: char) -> (r: Option<usize>)
    ensures
        match r {
            Some(i) => first_index_of(s@, c) == i as int && i < s@.len(),
            None => first_index_of(s@, c) == -1,
        },
    decreases s@.len(),
{
    let n = s.unicode_len();
    if n == 0 {
        None
    } else if s.get_char(0) == c {
        Some(0)
    } else {
        let rest = s.substring_char(1, n);
        proof {
            assert(rest@ =~= s@.drop_first());
        }
        match find_char(rest, c) {
            Some(i) => Some(i + 1),
            None => None,
        }
    }
}

/// Finds the last occurrence of `c` in `s`.
pub fn rfind_char(s: &str, c: char) -> (r: Option<usize>)
    ensures
        match r {
            Some(i) => last_index_of(s@, c) == i as int && i < s@.len(),
            None => last_index_of(s@, c) == -1,
        },
    decreases s@.len(),
{
    let n = s.unicode_len();
    if n == 0 {
        None
    } else if s.get_char(n - 1) == c {
        Some(n - 1)
    } else {
        let rest = s.substring_char(0, n - 1);
        proof {
            assert(rest@ =~= s@.drop_last());
        }
        rfind_char(rest, c)
    }
}

/// The index of the first occurrence of `p` as a contiguous
/// subsequence of `s`, or -1 when absent.
pub open spec fn first_sub(s: Seq<char>, p: Seq<char>) -> int
    decreases s.len(),
{
    if s.len() < p.len() {
        -1
    } else if s.take(p.len() as int) == p {
        0
    } else if s.len() == 0 {
        -1
    } else if first_sub(s.drop_first(), p) < 0 {
        -1
    } else {
        1 + first_sub(s.drop_first(), p)
    }
}

/// Finds the first occurrence of `p` as a substring of `s`.
pub fn find_sub(s: &str, p: &str) -> (r: Option<usize>)
    ensures
        match r {
            Some(i) => first_sub(s@, p@) == i as int && i + p@.len() <= s@.len(),
            None => first_sub(s@, p@) == -1,
        },
    decreases s@.len(),
{
    let n = s.unicode_len();
    let m = p.unicode_len();
    if n < m {
        None
    } else if n == 0 {
        proof {
            assert(s@.take(0) =~= p@);
        }
        Some(0)
    } else if str_eq(s.substring_char(0, m), p) {
        Some(0)
    } else {
        let rest = s.substring_char(1, n);
        proof {
            assert(rest@ =~= s@.drop_first());
            assert(s@.subrange(0, m as int) =~= s@.take(m as int));
        }
        match find_sub(rest, p) {
            Some(i) => Some(i + 1),
            None => None,
        }
    }
}

/// How Rust's `split` on one separator character divides a sequence:
/// the result always has at least one part, and holds the (possibly
/// empty) stretches between occurrences of the separator.
pub open spec fn spec_split(s: Seq<char>, c: char) -> Seq<Seq<char>>
    decreases s.len(),
{
    if s.len() == 0 {
        seq![Seq::<char>::empty()]
    } else if s[0] == c {
        seq![Seq::<char>::empty()] + spec_split(s.drop_first(), c)
    } else {
        let rest = spec_split(s.drop_first(), c);
        seq![seq![s[0]] + rest[0]] + rest.drop_first()
    }
}

/// A split always yields at least one part.
pub proof fn lemma_split_len(s: Seq<char>, c: char)
    ensures
        spec_split(s, c).len() >= 1,
    decreases s.len(),
{
    if s.len() > 0 {
        lemma_split_len(s.drop_first(), c);
    }
}

/// Splitting a sequence without the separator yields that sequence alone.
pub proof fn lemma_split_no_sep(s: Seq<char>, c: char)
    requires
        !s.contains(c),
    ensures
        spec_split(s, c) =~~= seq![s],
    decreases s.len(),
{
    if s.len() > 0 {
        assert(s[0] != c);
        assert(s.drop_first().contains(c) ==> s.contains(c)) by {
            if s.drop_first().contains(c) {
                let i = choose|i: int| 0 <= i < s.drop_first().len() && s.drop_first()[i] == c;
                assert(s[i + 1] == c);
            }
        }
        lemma_split_no_sep(s.drop_first(), c);
        lemma_split_len(s.drop_first(), c);
        assert(seq![s[0]] + s.drop_first() =~= s);
    }
}

/// Splitting `a + [c] + b` where `a` is free of the separator yields
/// `a` followed by the split of `b`.
pub proof fn lemma_split_append(a: Seq<char>, c: char, b: Seq<char>)
    requires
        !a.contains(c),
    ensures
        spec_split(a + seq![c] + b, c) =~~= seq![a] + spec_split(b, c),
    decreases a.len(),
{
    let s = a + seq![c] + b;
    if a.len() == 0 {
        assert(s[0] == c);
        assert(s.drop_first() =~= b);
        assert(a =~= Seq::<char>::empty());
    } else {
        assert(s[0] == a[0]);
        assert(a[0] != c);
        assert(s.drop_first() =~= a.drop_first() + seq![c] + b);
        assert(a.drop_first().contains(c) ==> a.contains(c)) by {
            if a.drop_first().contains(c) {
                let i = choose|i: int|
                    0 <= i < a.drop_first().len() && a.drop_first()[i] == c;
                assert(a[i + 1] == c);
            }
        }
        lemma_split_append(a.drop_first(), c, b);
        lemma_split_len(b, c);
        assert(seq![a[0]] + a.drop_first() =~= a);
    }
}

/// Splits a string slice on one separator character.
pub fn split_char(s: &str, c: char) -> (r: Vec<String>)
    ensures
        str_views(r@) == spec_split(s@, c),
        r@.len() >= 1,
    decreases s@.len(),
{
    let n = s.unicode_len();
    if n == 0 {
        let mut r: Vec<String> = Vec::new();
        r.push(String::new());
        proof {
            assert(str_views(r@) =~~= spec_split(s@, c));
        }
        r
    } else if s.get_char(0) == c {
        let rest = s.substring_char(1, n);
        proof {
            assert(rest@ =~= s@.drop_first());
        }
        let mut r = split_char(rest, c);
        r.insert(0, String::new());
        proof {
            assert(str_views(r@) =~~= spec_split(s@, c));
        }
        r
    } else {
        let rest = s.substring_char(1, n);
        proof {
            assert(rest@ =~= s@.drop_first());
        }
        let mut r = split_char(rest, c);
        let tail = r.remove(0);
        let mut head = String::new();
        push_char(&mut head, s.get_char(0));
        head.append(tail.as_str());
        r.insert(0, head);
        proof {
            assert(head@ =~= seq![s@[0]] + spec_split(s@.drop_first(), c)[0]);
            assert(str_views(r@) =~~= spec_split(s@, c));
        }
        r
    }
}

/// A line segment with one trailing carriage return removed.
pub open spec fn strip_cr(l: Seq<char>) -> Seq<char> {
    if l.len() > 0 && l.last() == '\r' {
        l.drop_last()
    } else {
        l
    }
}

/// How Rust's `str::lines` divides a sequence: split at `'\n'`, strip
/// one `'\r'` before each split point, and drop a final empty segment.
pub open spec fn spec_lines(s: Seq<char>) -> Seq<Seq<char>> {
    let parts = spec_split(s, '\n');
    let main = parts.drop_last().map_values(|l: Seq<char>| strip_cr(l));
    if parts.last().len() == 0 {
        main
    } else {
        main + seq![parts.last()]
    }
}

fn strip_cr_exec(l: String) -> (r: String)
    ensures
        r@ == strip_cr(l@),
{
    let n = l.as_str().unicode_len();
    if n > 0 && l.as_str().get_char(n - 1) == '\r' {
        let r = l.as_str().substring_char(0, n - 1).to_owned();
        proof {
            assert(r@ =~= l@.drop_last());
        }
        r
    } else {
        l
    }
}

/// Splits a string slice into its lines, as `str::lines` does.
pub fn lines_vec(s: &str) -> (r: Vec<String>)
    ensures
        str_views(r@) == spec_lines(s@),
{
    let mut parts = split_char(s, '\n');
    let ghost orig_parts = str_views(parts@);
    let last = parts.pop().unwrap();
    let mut r: Vec<String> = Vec::new();
    let mut i: usize = 0;
    let n = parts.len();
    while i < n
        invariant
            i <= n,
            n == parts@.len(),
            str_views(parts@) == orig_parts.drop_last(),
            str_views(r@) =~= orig_parts.drop_last().map_values(
                |l: Seq<char>| strip_cr(l),
            ).take(i as int),
        decreases n - i,
    {
        let line = strip_cr_exec(parts[i].clone());
        r.push(line);
        proof {
            let m = orig_parts.drop_last().map_values(|l: Seq<char>| strip_cr(l));
            assert(m.take(i + 1 as int) =~= m.take(i as int).push(m[i as int]));
            assert(str_views(r@) =~= m.take(i + 1 as int));
        }
        i += 1;
    }
    proof {
        let m = orig_parts.drop_last().map_values(|l: Seq<char>| strip_cr(l));
        assert(m.take(n as int) =~= m);
    }
    if last.as_str().unicode_len() > 0 {
        r.push(last);
        proof {
            assert(str_views(r@) =~~= spec_lines(s@));
        }
    } else {
        proof {
            assert(str_views(r@) =~~= spec_lines(s@));
        }
    }
    r
}

/// The parts joined with the separator between neighbours.
pub open spec fn spec_join(parts: Seq<Seq<char>>, sep: Seq<char>) -> Seq<char>
    decreases parts.len(),
{
    if parts.len() == 0 {
        Seq::empty()
    } else if parts.len() == 1 {
        parts[0]
    } else {
        parts[0] + sep + spec_join(parts.drop_first(), sep)
    }
}

fn join_from(parts: &Vec<String>, sep: &str, i: usize) -> (r: String)
    requires
        i <= parts@.len(),
    ensures
        r@ == spec_join(str_views(parts@).skip(i as int), sep@),
    decreases parts@.len() - i,
{
    let n = parts.len();
    if i == n {
        String::new()
    } else if i + 1 == n {
        let r = parts[i].clone();
        proof {
            assert(str_views(parts@).skip(i as int) =~= seq![parts@[i as int]@]);
        }
        r
    } else {
        let mut r = parts[i].clone();
        r.append(sep);
        let rest = join_from(parts, sep, i + 1);
        r.append(rest.as_str());
        proof {
            let views = str_views(parts@);
            assert(views.skip(i as int).drop_first() =~= views.skip(i + 1 as int));
            assert(views.skip(i as int)[0] == parts@[i as int]@);
        }
        r
    }
}

/// Joins the parts with the separator between neighbours.
pub fn join_with(parts: &Vec<String>, sep: &str) -> (r: String)
    ensures
        r@ == spec_join(str_views(parts@), sep@),
{
    let r = join_from(parts, sep, 0);
    proof {
        assert(str_views(parts@).skip(0) =~= str_views(parts@));
    }
    r
}

/// Whether `s` starts with the prefix `p`, with the test spelled out.
pub fn starts_with_str(s: &str, p: &str) -> (r: bool)
    ensures
        r == (s@.len() >= p@.len() && s@.take(p@.len() as int) == p@),
{
    let n = s.unicode_len();
    let m = p.unicode_len();
    if n < m {
        false
    } else {
        let head = s.substring_char(0, m);
        proof {
            assert(head@ =~= s@.take(m as int));
        }
        str_eq(head, p)
    }
}

/// Whether `s` ends with the suffix `p`, with the test spelled out.
pub fn ends_with_str(s: &str, p: &str) -> (r: bool)
    ensures
        r == (s@.len() >= p@.len() && s@.skip(s@.len() - p@.len()) == p@),
{
    let n = s.unicode_len();
    let m = p.unicode_len();
    if n < m {
        false
    } else {
        let tail = s.substring_char(n - m, n);
        proof {
            assert(tail@ =~= s@.skip(s@.len() - p@.len()));
        }
        str_eq(tail, p)
    }
}

} // verus!
