//! What the settings screen does with its text inputs: which edits of a numeric field are
//! accepted and what number they give, how an alias definition is read, and the small
//! strings it derives (a colour's hex code, an export file name, a count of to-dos).

use vstd::prelude::*;
use vstd::string::*;
use crate::text::{chars_of, spec_starts_with, starts_with};
use crate::submit::{trimmed, trim_chars, string_of, strip_leading, strip_leading_chars};
use crate::hotkeys::{key_lower, to_lowercase};
use crate::inline::{occurs_at, occurs_at_exec};

verus! {

/// Whether `c` is numeric, as `char::is_numeric` decides it (the Unicode number categories).
pub uninterp spec fn char_numeric(c: char) -> bool;

/// `char::is_numeric`: whether the character is in one of Unicode's number categories,
/// which hold the ASCII digits.
#[verifier::external_body]
fn is_numeric(c: char) -> (r: bool)
    ensures
        r == char_numeric(c),
        '0' <= c <= '9' ==> r,
{
    c.is_numeric()
}

/// Every character of `s` is numeric.
pub open spec fn all_numeric(s: Seq<char>) -> bool {
    forall|i: int| 0 <= i < s.len() ==> char_numeric(#[trigger] s[i])
}

/// A non-empty run of ASCII decimal digits.
pub open spec fn is_decimal(d: Seq<char>) -> bool {
    d.len() > 0 && forall|i: int| 0 <= i < d.len() ==> '0' <= #[trigger] d[i] <= '9'
}

/// The number that a run of decimal digits writes.
pub open spec fn decimal_value(d: Seq<char>) -> nat
    decreases d.len(),
{
    if d.len() == 0 {
        0
    } else {
        decimal_value(d.drop_last()) * 10 + ((d.last() as u32) - ('0' as u32)) as nat
    }
}

/// The digits of an unsigned number as `str::parse` reads it: an optional `+`, then digits.
pub open spec fn unsigned_digits(s: Seq<char>) -> Seq<char> {
    if s.len() > 0 && s[0] == '+' {
        s.drop_first()
    } else {
        s
    }
}

/// What `str::parse` gives for an unsigned type whose largest value is `max`: the number,
/// or nothing when the text is not an optional `+` and digits, or the number is too large.
pub open spec fn parsed_unsigned(s: Seq<char>, max: nat) -> Option<nat> {
    let d = unsigned_digits(s);
    if is_decimal(d) && decimal_value(d) <= max {
        Some(decimal_value(d))
    } else {
        None
    }
}

proof fn lemma_decimal_grows(d: Seq<char>, k: int)
    requires
        0 <= k <= d.len(),
        forall|i: int| 0 <= i < d.len() ==> '0' <= #[trigger] d[i] <= '9',
    ensures
        decimal_value(d.take(k)) <= decimal_value(d),
    decreases d.len() - k,
{
    if k < d.len() {
        lemma_decimal_grows(d, k + 1);
        assert(d.take(k + 1).drop_last() == d.take(k));
    } else {
        assert(d.take(k) == d);
    }
}

/// Read an unsigned number the way `str::parse` does, for a type whose largest value is
/// `max`.
pub fn parse_unsigned(s: &Vec<char>, max: u64) -> (r: Option<u64>)
    requires
        max <= u32::MAX,
    ensures
        match r {
            Some(n) => parsed_unsigned(s@, max as nat) == Some(n as nat),
            None => parsed_unsigned(s@, max as nat) is None,
        },
{
    let start: usize = if s.len() > 0 && s[0] == '+' { 1 } else { 0 };
    let ghost d = unsigned_digits(s@);
    assert(d == s@.subrange(start as int, s@.len() as int));
    if start >= s.len() {
        return None;
    }
    let mut acc: u64 = 0;
    let mut i: usize = start;
    while i < s.len()
        invariant
            start <= i <= s@.len(),
            d == unsigned_digits(s@),
            d == s@.subrange(start as int, s@.len() as int),
            max <= u32::MAX,
            acc <= max,
            forall|k: int| 0 <= k < i - start ==> '0' <= #[trigger] d[k] <= '9',
            acc as nat == decimal_value(d.take(i - start)),
        decreases s@.len() - i,
    {
        let c = s[i];
        if !('0' <= c && c <= '9') {
            assert(d[i - start] == c);
            return None;
        }
        assert(d.take(i - start + 1).drop_last() == d.take(i - start));
        assert(d.take(i - start + 1).last() == c);
        let digit = (c as u32 - '0' as u32) as u64;
        acc = acc * 10 + digit;
        i = i + 1;
        if acc > max {
            proof {
                if is_decimal(d) {
                    lemma_decimal_grows(d, i - start);
                }
            }
            return None;
        }
    }
    assert(d.take(d.len() as int) == d);
    Some(acc)
}

/// What an edit of a numeric setting does.
pub enum NumericEdit {
    /// The edit holds a character that is not numeric: the field keeps its old text.
    Rejected,
    /// The field was emptied.
    Cleared,
    /// The new text is kept but gives no number in range: the setting keeps its value.
    Kept,
    /// The new text gives this number.
    Number(u64),
}

/// The meaning of an edit, over numbers up to `max`.
pub open spec fn spec_numeric_edit(val: Seq<char>, max: nat) -> NumericEditKind {
    if val.len() == 0 {
        NumericEditKind::Cleared
    } else if !all_numeric(val) {
        NumericEditKind::Rejected
    } else {
        match parsed_unsigned(trimmed(val), max) {
            Some(n) => NumericEditKind::Number(n),
            None => NumericEditKind::Kept,
        }
    }
}

/// The meaning of a `NumericEdit`, with its number as a natural number.
pub enum NumericEditKind {
    Rejected,
    Cleared,
    Kept,
    Number(nat),
}

/// The meaning of a `NumericEdit`.
pub open spec fn numeric_edit_kind(e: NumericEdit) -> NumericEditKind {
    match e {
        NumericEdit::Rejected => NumericEditKind::Rejected,
        NumericEdit::Cleared => NumericEditKind::Cleared,
        NumericEdit::Kept => NumericEditKind::Kept,
        NumericEdit::Number(n) => NumericEditKind::Number(n as nat),
    }
}

/// Judge an edit of a numeric setting field: the text is accepted when it is empty or all
/// numeric, and then gives the number that its trimmed text parses to, if that is at most
/// `max`.
pub fn numeric_edit(val: &str, max: u64) -> (r: NumericEdit)
    requires
        max <= u32::MAX,
    ensures
        numeric_edit_kind(r) == spec_numeric_edit(val@, max as nat),
{
    let chars = chars_of(val);
    if chars.len() == 0 {
        return NumericEdit::Cleared;
    }
    let mut i: usize = 0;
    while i < chars.len()
        invariant
            i <= chars@.len(),
            chars@ == val@,
            chars@.len() > 0,
            forall|k: int| 0 <= k < i ==> char_numeric(#[trigger] chars@[k]),
        decreases chars@.len() - i,
    {
        if !is_numeric(chars[i]) {
            assert(val@[i as int] == chars@[i as int]);
            return NumericEdit::Rejected;
        }
        i = i + 1;
    }
    match parse_unsigned(&trim_chars(&chars), max) {
        Some(n) => NumericEdit::Number(n),
        None => NumericEdit::Kept,
    }
}


/// The hexadecimal digit of `n` (below 16), upper case.
pub open spec fn hex_digit(n: nat) -> char {
    if n < 10 {
        (48 + n) as char
    } else {
        (55 + n) as char
    }
}

/// The two upper-case hexadecimal digits of a byte.
pub open spec fn hex_byte(b: u8) -> Seq<char> {
    seq![hex_digit((b / 16) as nat), hex_digit((b % 16) as nat)]
}

/// `#RRGGBB` for a colour's three channels.
pub open spec fn spec_color_hex(r: u8, g: u8, b: u8) -> Seq<char> {
    seq!['#'] + hex_byte(r) + hex_byte(g) + hex_byte(b)
}

fn hex_char(n: u8) -> (c: char)
    requires
        n < 16,
    ensures
        c == hex_digit(n as nat),
{
    let digits: [char; 16] = ['0', '1', '2', '3', '4', '5', '6', '7', '8', '9', 'A', 'B', 'C', 'D', 'E', 'F'];
    let c = digits[n as usize];
    assert(c == hex_digit(n as nat)) by {
        assert(digits@ == seq!['0', '1', '2', '3', '4', '5', '6', '7', '8', '9', 'A', 'B', 'C', 'D', 'E', 'F']);
    }
    c
}

/// The colour code a local calendar stores: `#` and two upper-case hexadecimal digits per
/// channel.
pub fn color_hex(r: u8, g: u8, b: u8) -> (s: String)
    ensures
        s@ == spec_color_hex(r, g, b),
{
    let mut v: Vec<char> = Vec::new();
    v.push('#');
    v.push(hex_char(r / 16));
    v.push(hex_char(r % 16));
    v.push(hex_char(g / 16));
    v.push(hex_char(g % 16));
    v.push(hex_char(b / 16));
    v.push(hex_char(b % 16));
    assert(v@ =~= spec_color_hex(r, g, b));
    string_of(&v)
}

/// How many times `p` occurs in `s` from `from` on, counting left to right without overlap
/// (one less than the number of pieces `str::split` cuts `s` into).
pub open spec fn matches_from(s: Seq<char>, p: Seq<char>, from: int) -> nat
    decreases s.len() + 1 - from,
{
    if p.len() == 0 || from < 0 || from + p.len() > s.len() {
        0
    } else if occurs_at(s, p, from) {
        1 + matches_from(s, p, from + p.len())
    } else {
        matches_from(s, p, from + 1)
    }
}

/// The text that marks the start of a to-do in iCalendar data.
pub open spec fn vtodo_marker() -> Seq<char> {
    seq!['B', 'E', 'G', 'I', 'N', ':', 'V', 'T', 'O', 'D', 'O']
}

/// How many to-dos an iCalendar file holds: the number of `BEGIN:VTODO` markers in it.
pub fn count_vtodos(content: &str) -> (n: usize)
    ensures
        n == matches_from(content@, vtodo_marker(), 0),
{
    let s = chars_of(content);
    let marker: [char; 11] = ['B', 'E', 'G', 'I', 'N', ':', 'V', 'T', 'O', 'D', 'O'];
    assert(marker@ == vtodo_marker());
    let n = s.len();
    let mut count: usize = 0;
    let mut i: usize = 0;
    while 11 <= n - i
        invariant
            n == s@.len(),
            s@ == content@,
            marker@ == vtodo_marker(),
            i <= n,
            count <= i,
            count + matches_from(s@, marker@, i as int) == matches_from(s@, marker@, 0),
        decreases n + 1 - i,
    {
        if occurs_at_exec(&s, &marker, i) {
            count = count + 1;
            i = i + 11;
        } else {
            i = i + 1;
        }
    }
    count
}

/// The name of the file a local calendar is exported to: `cfait_` and the calendar's id
/// (its href after `local://`, or `backup` for another href), then `.ics`.
pub open spec fn spec_export_file_name(href: Seq<char>) -> Seq<char> {
    let prefix = seq!['l', 'o', 'c', 'a', 'l', ':', '/', '/'];
    let id = if spec_starts_with(href, prefix) {
        href.subrange(prefix.len() as int, href.len() as int)
    } else {
        seq!['b', 'a', 'c', 'k', 'u', 'p']
    };
    seq!['c', 'f', 'a', 'i', 't', '_'] + id + seq!['.', 'i', 'c', 's']
}

/// The file name offered when a local calendar is exported.
pub fn export_file_name(href: &str) -> (r: String)
    ensures
        r@ == spec_export_file_name(href@),
{
    let h = chars_of(href);
    let prefix: Vec<char> = vec!['l', 'o', 'c', 'a', 'l', ':', '/', '/'];
    assert(prefix@ == seq!['l', 'o', 'c', 'a', 'l', ':', '/', '/']);
    let mut out: Vec<char> = vec!['c', 'f', 'a', 'i', 't', '_'];
    let ghost head = out@;
    if starts_with(&h, &prefix) {
        let mut i: usize = 8;
        while i < h.len()
            invariant
                8 <= i <= h@.len(),
                out@ == head + h@.subrange(8, i as int),
            decreases h@.len() - i,
        {
            out.push(h[i]);
            i = i + 1;
        }
    } else {
        out.push('b');
        out.push('a');
        out.push('c');
        out.push('k');
        out.push('u');
        out.push('p');
    }
    out.push('.');
    out.push('i');
    out.push('c');
    out.push('s');
    assert(out@ =~= spec_export_file_name(href@));
    string_of(&out)
}


/// The pieces that `str::split` cuts `s` into at each `sep`.
pub open spec fn split_pieces(s: Seq<char>, sep: char) -> Seq<Seq<char>>
    decreases s.len(),
{
    if s.len() == 0 {
        seq![Seq::empty()]
    } else {
        let prev = split_pieces(s.drop_last(), sep);
        if s.last() == sep {
            prev.push(Seq::empty())
        } else {
            prev.update(prev.len() - 1, prev.last().push(s.last()))
        }
    }
}

/// The tags of an alias definition: the comma-separated pieces, trimmed, without the empty
/// ones.
pub open spec fn alias_tags(values: Seq<char>) -> Seq<Seq<char>> {
    split_pieces(values, ',').map_values(|p: Seq<char>| trimmed(p)).filter(|t: Seq<char>| t.len() > 0)
}

/// The key an alias definition is stored under: the trimmed key as written when it starts
/// with `@@`; `@@` and the trimmed rest when it starts with `loc:` in any case; else the
/// key without its leading `#`s.
pub open spec fn spec_alias_key(raw: Seq<char>) -> Seq<char> {
    let k = trimmed(raw);
    if spec_starts_with(k, seq!['@', '@']) {
        k
    } else if spec_starts_with(key_lower(k), seq!['l', 'o', 'c', ':']) && k.len() >= 4 {
        seq!['@', '@'] + trimmed(k.subrange(4, k.len() as int))
    } else {
        strip_leading(k, seq!['#'])
    }
}

/// The views of a vector of strings.
pub open spec fn str_views(v: Seq<String>) -> Seq<Seq<char>> {
    v.map_values(|s: String| s@)
}

pub(crate) fn split_on(s: &Vec<char>, sep: char) -> (r: Vec<Vec<char>>)
    ensures
        r@.map_values(|v: Vec<char>| v@) == split_pieces(s@, sep),
        r@.len() >= 1,
{
    let mut pieces: Vec<Vec<char>> = Vec::new();
    let mut cur: Vec<char> = Vec::new();
    let mut i: usize = 0;
    assert(s@.take(0) =~= Seq::<char>::empty());
    assert(pieces@.map_values(|v: Vec<char>| v@).push(cur@) =~= split_pieces(s@.take(0), sep));
    while i < s.len()
        invariant
            i <= s@.len(),
            pieces@.map_values(|v: Vec<char>| v@).push(cur@) == split_pieces(s@.take(i as int), sep),
        decreases s@.len() - i,
    {
        let ghost prev = split_pieces(s@.take(i as int), sep);
        assert(s@.take(i + 1).drop_last() =~= s@.take(i as int));
        assert(s@.take(i + 1).last() == s@[i as int]);
        if s[i] == sep {
            let done = cur;
            pieces.push(done);
            cur = Vec::new();
            assert(pieces@.map_values(|v: Vec<char>| v@).push(cur@) =~= prev.push(Seq::empty()));
        } else {
            cur.push(s[i]);
            assert(pieces@.map_values(|v: Vec<char>| v@).push(cur@) =~= prev.update(prev.len() - 1, prev.last().push(s@[i as int])));
        }
        i = i + 1;
    }
    assert(s@.take(s@.len() as int) =~= s@);
    pieces.push(cur);
    assert(pieces@.map_values(|v: Vec<char>| v@) =~= split_pieces(s@, sep));
    pieces
}

pub(crate) fn split_commas(s: &Vec<char>) -> (r: Vec<Vec<char>>)
    ensures
        r@.map_values(|v: Vec<char>| v@) == split_pieces(s@, ','),
        r@.len() >= 1,
{
    split_on(s, ',')
}

/// Read the tags of an alias definition.
pub fn parse_alias_tags(values: &str) -> (r: Vec<String>)
    ensures
        str_views(r@) == alias_tags(values@),
{
    let pieces = split_commas(&chars_of(values));
    let ghost all = pieces@.map_values(|v: Vec<char>| v@);
    let ghost trimmed_all = all.map_values(|p: Seq<char>| trimmed(p));
    let mut r: Vec<String> = Vec::new();
    let mut k: usize = 0;
    while k < pieces.len()
        invariant
            k <= pieces@.len(),
            all == pieces@.map_values(|v: Vec<char>| v@),
            trimmed_all == all.map_values(|p: Seq<char>| trimmed(p)),
            str_views(r@) == trimmed_all.take(k as int).filter(|t: Seq<char>| t.len() > 0),
        decreases pieces@.len() - k,
    {
        let t = trim_chars(&pieces[k]);
        proof {
            reveal_with_fuel(Seq::<_>::filter, 1);
            assert(trimmed_all.take(k + 1).drop_last() =~= trimmed_all.take(k as int));
            assert(trimmed_all.take(k + 1).last() == t@);
        }
        if t.len() > 0 {
            let st = string_of(&t);
            let ghost before = r@;
            r.push(st);
            assert(str_views(r@) =~= str_views(before).push(t@));
        }
        k = k + 1;
    }
    assert(trimmed_all.take(pieces@.len() as int) =~= trimmed_all);
    r
}

/// Normalise the key of an alias definition.
pub fn alias_key(raw: &str) -> (r: String)
    ensures
        r@ == spec_alias_key(raw@),
{
    let k = trim_chars(&chars_of(raw));
    let at2: Vec<char> = vec!['@', '@'];
    let loc: Vec<char> = vec!['l', 'o', 'c', ':'];
    let hash: Vec<char> = vec!['#'];
    assert(at2@ == seq!['@', '@']);
    assert(loc@ == seq!['l', 'o', 'c', ':']);
    assert(hash@ == seq!['#']);
    if starts_with(&k, &at2) {
        return string_of(&k);
    }
    let k_str = string_of(&k);
    let lower = chars_of(to_lowercase(k_str.as_str()).as_str());
    if starts_with(&lower, &loc) && k.len() >= 4 {
        let mut rest: Vec<char> = Vec::new();
        let mut i: usize = 4;
        while i < k.len()
            invariant
                4 <= i <= k@.len(),
                rest@ == k@.subrange(4, i as int),
            decreases k@.len() - i,
        {
            rest.push(k[i]);
            i = i + 1;
        }
        let mut out: Vec<char> = vec!['@', '@'];
        let t = trim_chars(&rest);
        let mut j: usize = 0;
        while j < t.len()
            invariant
                j <= t@.len(),
                out@ == seq!['@', '@'] + t@.subrange(0, j as int),
            decreases t@.len() - j,
        {
            out.push(t[j]);
            j = j + 1;
        }
        assert(t@.subrange(0, t@.len() as int) == t@);
        return string_of(&out);
    }
    string_of(&strip_leading_chars(&k, &hash))
}

/// An alias to add, from the key and tag inputs: `None` when an input is empty or no tag is
/// left once the pieces are trimmed; else the normalised key and the tags, which still have
/// to pass the alias integrity check.
pub fn alias_request(key_input: &str, values_input: &str) -> (r: Option<(String, Vec<String>)>)
    ensures
        r is Some <==> (key_input@.len() > 0 && values_input@.len() > 0 && alias_tags(values_input@).len() > 0),
        r matches Some((k, tags)) ==> k@ == spec_alias_key(key_input@) && str_views(tags@) == alias_tags(values_input@),
{
    if key_input.unicode_len() == 0 || values_input.unicode_len() == 0 {
        return None;
    }
    let tags = parse_alias_tags(values_input);
    if tags.len() == 0 {
        return None;
    }
    Some((alias_key(key_input), tags))
}

} // verus!
