//! Small helpers: display widths of chars, text conversions, and the nearest
//! 256-colour terminal code of an RGB colour.

use unicode_width::UnicodeWidthChar;
use vstd::prelude::*;

verus! {

/// The display width that `unicode-width` gives a char (`None` for control chars).
pub uninterp spec fn unicode_width(c: char) -> Option<usize>;

/// The display width that `unicode-width` gives a char in an East Asian context.
pub uninterp spec fn unicode_width_cjk(c: char) -> Option<usize>;

/// `UnicodeWidthChar::width`: the width of `c` in columns; printable ASCII is one
/// column wide, the C0 and C1 control chars have none, every other char has a
/// width that the crate reads from a table of bytes.
#[verifier::external_body]
pub(crate) fn char_unicode_width(c: char) -> (r: Option<usize>)
    ensures
        r == unicode_width(c),
        0x20 <= c < 0x7f ==> r == Some(1usize),
        c < 0x20 || (0x7f <= c < 0xa0) ==> r == None::<usize>,
        c >= 0xa0 ==> r is Some && r->0 <= 255,
{
    UnicodeWidthChar::width(c)
}

/// `UnicodeWidthChar::width_cjk`: as `width`, with ambiguous chars two columns wide.
#[verifier::external_body]
fn char_unicode_width_cjk(c: char) -> (r: Option<usize>)
    ensures
        r == unicode_width_cjk(c),
        0x20 <= c < 0x7f ==> r == Some(1usize),
        c < 0x20 || (0x7f <= c < 0xa0) ==> r == None::<usize>,
        c >= 0xa0 ==> r is Some && r->0 <= 255,
{
    UnicodeWidthChar::width_cjk(c)
}

/// The width of `c` at column `position`: a tab reaches the next tab stop, a
/// newline takes one column, any other char its Unicode width.
pub open spec fn spec_char_width(c: char, is_cjk: bool, tab_width: usize, position: usize) -> Option<usize> {
    if c == '\t' {
        Some((tab_width - position % tab_width) as usize)
    } else if c == '\n' {
        Some(1)
    } else if is_cjk {
        unicode_width_cjk(c)
    } else {
        unicode_width(c)
    }
}

/// Whether a char has the Unicode `Alphabetic` property.
pub uninterp spec fn unicode_alphabetic(c: char) -> bool;

/// Whether a char is in one of the Unicode general categories for numbers.
pub uninterp spec fn unicode_numeric(c: char) -> bool;

/// `char::is_alphabetic`: whether the char has the `Alphabetic` property.
#[verifier::external_body]
pub(crate) fn is_alphabetic(c: char) -> (r: bool)
    ensures
        r == unicode_alphabetic(c),
{
    c.is_alphabetic()
}

/// `char::is_numeric`: whether the char is in a number category (Nd, Nl, No).
#[verifier::external_body]
pub(crate) fn is_numeric(c: char) -> (r: bool)
    ensures
        r == unicode_numeric(c),
{
    c.is_numeric()
}

/// `char::is_alphanumeric`: documented as `is_alphabetic() || is_numeric()`.
#[verifier::external_body]
pub(crate) fn is_alphanumeric(c: char) -> (r: bool)
    ensures
        r == (unicode_alphabetic(c) || unicode_numeric(c)),
{
    c.is_alphanumeric()
}

/// The display width of a char at a column.
pub fn char_width(c: char, is_cjk: bool, tab_width: usize, position: usize) -> (r: Option<usize>)
    requires
        c == '\t' ==> tab_width > 0,
    ensures
        r == spec_char_width(c, is_cjk, tab_width, position),
        r matches Some(w) ==> w <= 255 || (c == '\t' && w <= tab_width),
{
    if c == '\t' {
        Some(tab_width - position % tab_width)
    } else if c == '\n' {
        Some(1)
    } else if is_cjk {
        char_unicode_width_cjk(c)
    } else {
        char_unicode_width(c)
    }
}

/// The width of the chars `s` laid out from column 0: each char is measured at
/// the column the ones before it reach (a char without width counts none).
pub open spec fn spec_str_width(s: Seq<char>, is_cjk: bool, tab_width: usize) -> int
    decreases s.len(),
{
    if s.len() == 0 {
        0
    } else {
        let acc = spec_str_width(s.drop_last(), is_cjk, tab_width);
        acc + match spec_char_width(s.last(), is_cjk, tab_width, acc as usize) {
            Some(w) => w as int,
            None => 0,
        }
    }
}

/// The display width of a run of chars.
pub fn str_width(s: &[char], is_cjk: bool, tab_width: usize) -> (r: usize)
    requires
        tab_width > 0,
        s@.len() * (tab_width + 255) <= usize::MAX,
    ensures
        r == spec_str_width(s@, is_cjk, tab_width),
{
    let mut acc: usize = 0;
    let mut i: usize = 0;
    while i < s.len()
        invariant
            i <= s@.len(),
            tab_width > 0,
            s@.len() * (tab_width + 255) <= usize::MAX,
            acc == spec_str_width(s@.take(i as int), is_cjk, tab_width),
            acc <= i * (tab_width + 255),
        decreases s@.len() - i,
    {
        proof {
            assert(s@.take(i + 1).drop_last() =~= s@.take(i as int));
            assert(s@.take(i + 1).last() == s@[i as int]);
            assert((i + 1) * (tab_width + 255) == i * (tab_width + 255) + tab_width + 255) by (nonlinear_arith);
            assert((i + 1) * (tab_width + 255) <= s@.len() * (tab_width + 255)) by (nonlinear_arith)
                requires
                    i + 1 <= s@.len(),
            ;
        }
        let w = match char_width(s[i], is_cjk, tab_width, acc) {
            Some(w) => w,
            None => 0,
        };
        acc = acc + w;
        i = i + 1;
    }
    proof {
        assert(s@.take(s@.len() as int) =~= s@);
    }
    acc
}

/// The chars of `s`.
pub fn data_from_str(s: &str) -> (r: Vec<char>)
    ensures
        r@ == s@,
{
    broadcast use vstd::string::axiom_spec_iter;
    let mut v: Vec<char> = Vec::new();
    for c in it: s.chars()
        invariant
            v@ == it.seq().take(it.index() as int),
            it.seq() == s@,
    {
        v.push(c);
        proof {
            assert(v@ =~= it.seq().take(it.index() + 1));
        }
    }
    v
}

/// `String::push`: appends a char.
#[verifier::external_body]
pub(crate) fn string_push(s: &mut String, c: char)
    ensures
        final(s)@ == old(s)@.push(c),
{
    s.push(c)
}

/// `String::pop`: removes the last char and gives it back, or `None` when the
/// string is empty.
#[verifier::external_body]
pub(crate) fn string_pop(s: &mut String) -> (r: Option<char>)
    ensures
        old(s)@.len() == 0 ==> r is None && final(s)@ == old(s)@,
        old(s)@.len() > 0 ==> r == Some(old(s)@.last()) && final(s)@ == old(s)@.drop_last(),
{
    s.pop()
}

/// `String::push_str`: appends a string.
#[verifier::external_body]
pub(crate) fn string_push_str(s: &mut String, t: &str)
    ensures
        final(s)@ == old(s)@ + t@,
{
    s.push_str(t)
}

/// The decimal digits of `n`, most significant first.
pub open spec fn decimal(n: nat) -> Seq<char>
    decreases n,
{
    if n < 10 {
        seq![(('0' as nat) + n) as char]
    } else {
        decimal(n / 10).push((('0' as nat) + n % 10) as char)
    }
}

/// Appends the decimal digits of `n`.
pub fn push_decimal(s: &mut String, n: usize)
    ensures
        final(s)@ == old(s)@ + decimal(n as nat),
    decreases n,
{
    if n >= 10 {
        push_decimal(s, n / 10);
    }
    let d = (n % 10) as u8;
    let c = (48u8 + d) as char;
    string_push(s, c);
    proof {
        assert(c as nat == ('0' as nat) + n % 10);
        if n >= 10 {
            assert(old(s)@ + decimal(n as nat) =~= (old(s)@ + decimal((n / 10) as nat)).push(c));
        } else {
            assert(old(s)@ + decimal(n as nat) =~= old(s)@.push(c));
        }
    }
}

} // verus!

verus! {

/// The value of a digit in a radix (`0`-`9`, then `a`-`z` or `A`-`Z`), if it
/// is one.
pub open spec fn digit_value(c: char, radix: nat) -> Option<nat> {
    let v: int = if '0' <= c <= '9' {
        (c as int) - ('0' as int)
    } else if 'a' <= c <= 'z' {
        (c as int) - ('a' as int) + 10
    } else if 'A' <= c <= 'Z' {
        (c as int) - ('A' as int) + 10
    } else {
        radix as int
    };
    if 0 <= v < radix {
        Some(v as nat)
    } else {
        None
    }
}

/// The value of a run of digits in a radix, if they all are digits.
pub open spec fn digits_value(s: Seq<char>, radix: nat) -> Option<nat>
    decreases s.len(),
{
    if s.len() == 0 {
        Some(0)
    } else {
        match (digits_value(s.drop_last(), radix), digit_value(s.last(), radix)) {
            (Some(a), Some(d)) => Some(a * radix + d),
            _ => None,
        }
    }
}

/// What `i32::from_str_radix` makes of a text: an optional `+` or `-`, then
/// one or more digits of the radix, whose value fits an `i32`.
pub open spec fn parse_i32_radix(s: Seq<char>, radix: nat) -> Option<i32> {
    let neg = s.len() > 0 && s[0] == '-';
    let body = if s.len() > 0 && (s[0] == '-' || s[0] == '+') {
        s.drop_first()
    } else {
        s
    };
    if body.len() == 0 {
        None
    } else {
        match digits_value(body, radix) {
            Some(v) => {
                let x: int = if neg {
                    -(v as int)
                } else {
                    v as int
                };
                if i32::MIN <= x <= i32::MAX {
                    Some(x as i32)
                } else {
                    None
                }
            },
            None => None,
        }
    }
}

/// `i32::from_str_radix`: the number a text stands for in a radix, or `None`
/// where the text is not an optional sign followed by digits, or the number
/// does not fit.
#[verifier::external_body]
fn i32_from_str_radix(s: &str, radix: u32) -> (r: Option<i32>)
    requires
        2 <= radix <= 36,
    ensures
        r == parse_i32_radix(s@, radix as nat),
{
    i32::from_str_radix(s, radix).ok()
}

/// The capture groups of the leftmost match of a regular expression in a
/// text, as the `regex` crate finds them (group 0 is the whole match, a group
/// that took part in no match is `None`); `None` when the expression does not
/// compile or does not match.
pub uninterp spec fn regex_capture_groups(pattern: Seq<char>, text: Seq<char>) -> Option<
    Seq<Option<Seq<char>>>,
>;

/// The texts of some optional strings.
pub open spec fn group_views(groups: Seq<Option<String>>) -> Seq<Option<Seq<char>>> {
    groups.map_values(
        |g: Option<String>|
            match g {
                Some(s) => Some(s@),
                None => None,
            },
    )
}

proof fn lemma_group_views(groups: Seq<Option<String>>)
    ensures
        group_views(groups).len() == groups.len(),
        forall|i: int|
            0 <= i < groups.len() ==> #[trigger] group_views(groups)[i] == (match groups[i] {
                Some(s) => Some(s@),
                None => None::<Seq<char>>,
            }),
{
}

/// `regex::Regex::new(pattern)` then `Regex::captures(text)`: the capture
/// groups of the leftmost match, each as a string; `None` when the pattern
/// does not compile or nothing matches. Nothing more is claimed of the result
/// than that it is the named function of the pattern and the text.
#[verifier::external_body]
fn regex_captures(pattern: &str, text: &str) -> (r: Option<Vec<Option<String>>>)
    ensures
        match r {
            Some(g) => regex_capture_groups(pattern@, text@) == Some(group_views(g@)),
            None => regex_capture_groups(pattern@, text@) is None,
        },
{
    match regex::Regex::new(pattern) {
        Ok(re) => re.captures(text).map(
            |c| c.iter().map(|m| m.map(|m| m.as_str().to_string())).collect(),
        ),
        Err(_) => None,
    }
}

/// The palette level nearest a colour value from 0 to 255: of the two levels
/// around it, the lower one when it is strictly nearer, else the upper one.
pub open spec fn nearest_level(p: int) -> int {
    if p <= 0x5f {
        if p - 0x00 < 0x5f - p {
            0
        } else {
            1
        }
    } else if p <= 0x87 {
        if p - 0x5f < 0x87 - p {
            1
        } else {
            2
        }
    } else if p <= 0xaf {
        if p - 0x87 < 0xaf - p {
            2
        } else {
            3
        }
    } else if p <= 0xd7 {
        if p - 0xaf < 0xd7 - p {
            3
        } else {
            4
        }
    } else {
        if p - 0xd7 < 0xff - p {
            4
        } else {
            5
        }
    }
}

/// The palette code of the colour cube entry with the given levels.
pub open spec fn cube_code(r: int, g: int, b: int) -> int {
    16 + 36 * r + 6 * g + b
}

/// The palette code for three capture groups holding the red, green and blue
/// values in hexadecimal: when groups 1 to 3 are there, parse, and lie in
/// 0..=255, the colour cube entry of their nearest levels.
pub open spec fn spec_short_from_groups(groups: Seq<Option<Seq<char>>>) -> Option<usize> {
    if groups.len() >= 4 && groups[1] is Some && groups[2] is Some && groups[3] is Some {
        let r = parse_i32_radix(groups[1]->0, 16);
        let g = parse_i32_radix(groups[2]->0, 16);
        let b = parse_i32_radix(groups[3]->0, 16);
        if r is Some && g is Some && b is Some && 0 <= r->0 <= 255 && 0 <= g->0 <= 255 && 0 <= b->0
            <= 255 {
            Some(
                cube_code(
                    nearest_level(r->0 as int),
                    nearest_level(g->0 as int),
                    nearest_level(b->0 as int),
                ) as usize,
            )
        } else {
            None
        }
    } else {
        None
    }
}

/// The index of the palette level nearest a colour value from 0 to 255.
fn nearest_level_index(part: i32) -> (r: usize)
    requires
        0 <= part <= 255,
    ensures
        r == nearest_level(part as int),
        r <= 5,
{
    let incs: [i32; 6] = [0x00, 0x5f, 0x87, 0xaf, 0xd7, 0xff];
    let mut i: usize = 0;
    while i < 5
        invariant
            0 <= part <= 255,
            i <= 5,
            incs@ == seq![0x00i32, 0x5f, 0x87, 0xaf, 0xd7, 0xff],
            i == 0 || part > incs@[i as int],
        decreases 5 - i,
    {
        let s = incs[i];
        let b = incs[i + 1];
        if s <= part && part <= b {
            let s1 = part - s;
            let b1 = b - part;
            return if s1 < b1 {
                i
            } else {
                i + 1
            };
        }
        i = i + 1;
    }
    5
}

/// The colour value that capture group `k` holds in hexadecimal, if it is
/// there and holds one from 0 to 255.
fn parse_part(groups: &Vec<Option<String>>, k: usize) -> (r: Option<i32>)
    requires
        k < groups@.len(),
    ensures
        r == (match group_views(groups@)[k as int] {
            Some(t) => match parse_i32_radix(t, 16) {
                Some(x) => if 0 <= x <= 255 {
                    Some(x)
                } else {
                    None
                },
                None => None,
            },
            None => None,
        }),
{
    proof {
        lemma_group_views(groups@);
    }
    let v = match &groups[k] {
        Some(s) => i32_from_str_radix(s.as_str(), 16),
        None => None,
    };
    match v {
        Some(x) => if 0 <= x && x <= 255 {
            Some(x)
        } else {
            None
        },
        None => None,
    }
}

/// The palette code for capture groups holding the red, green and blue values
/// in hexadecimal, if they hold three colour values.
pub fn short_from_groups(groups: &Vec<Option<String>>) -> (r: Option<usize>)
    ensures
        r == spec_short_from_groups(group_views(groups@)),
{
    if groups.len() < 4 {
        return None;
    }
    let pr = parse_part(groups, 1);
    let pg = parse_part(groups, 2);
    let pb = parse_part(groups, 3);
    let (red, green, blue) = match (pr, pg, pb) {
        (Some(x), Some(y), Some(z)) => (x, y, z),
        _ => {
            return None;
        },
    };
    let r = nearest_level_index(red);
    let g = nearest_level_index(green);
    let b = nearest_level_index(blue);
    Some(16 + 36 * r + 6 * g + b)
}

/// The pattern that splits a colour into its three two-char parts.
pub open spec fn rgb_pattern() -> Seq<char> {
    "(..)(..)(..)"@
}

/// The 256-colour terminal palette code nearest an RGB colour given in
/// hexadecimal (`rrggbb`): the entry of the colour cube whose levels are
/// nearest the colour's red, green and blue.
pub fn rgb_to_short(rgb: &str) -> (r: usize)
    requires
        regex_capture_groups(rgb_pattern(), rgb@) matches Some(g) && spec_short_from_groups(g) is Some,
    ensures
        regex_capture_groups(rgb_pattern(), rgb@) matches Some(g) && spec_short_from_groups(g) == Some(r),
{
    let groups = regex_captures("(..)(..)(..)", rgb);
    match groups {
        Some(g) => match short_from_groups(&g) {
            Some(code) => code,
            None => 0,
        },
        None => 0,
    }
}

/// The palette code nearest an RGB colour given in hexadecimal, when the
/// text holds a colour: six chars in a row whose three pairs are
/// hexadecimal colour values.
pub fn try_rgb_to_short(rgb: &str) -> (r: Option<usize>)
    ensures
        r == (match regex_capture_groups(rgb_pattern(), rgb@) {
            Some(g) => spec_short_from_groups(g),
            None => None,
        }),
{
    match regex_captures("(..)(..)(..)", rgb) {
        Some(g) => match short_from_groups(&g) {
            Some(_) => Some(rgb_to_short(rgb)),
            None => None,
        },
        None => None,
    }
}

/// The number of bytes of the UTF-8 encoding of a char.
pub open spec fn utf8_len(c: char) -> nat {
    if (c as u32) < 0x80 {
        1
    } else if (c as u32) < 0x800 {
        2
    } else if (c as u32) < 0x10000 {
        3
    } else {
        4
    }
}

/// The number of bytes of the UTF-8 encoding of some chars.
pub open spec fn utf8_size(s: Seq<char>) -> nat
    decreases s.len(),
{
    if s.len() == 0 {
        0
    } else {
        utf8_size(s.drop_last()) + utf8_len(s.last())
    }
}

/// Each char takes one to four bytes.
pub proof fn lemma_utf8_size_bounds(s: Seq<char>)
    ensures
        s.len() <= utf8_size(s) <= 4 * s.len(),
    decreases s.len(),
{
    if s.len() > 0 {
        lemma_utf8_size_bounds(s.drop_last());
    }
}

/// The number of bytes of the UTF-8 encoding of a char.
pub(crate) fn char_utf8_len(c: char) -> (r: usize)
    ensures
        r == utf8_len(c),
{
    let n = c as u32;
    if n < 0x80 {
        1
    } else if n < 0x800 {
        2
    } else if n < 0x10000 {
        3
    } else {
        4
    }
}


/// The bytes of some chars followed by more chars are the bytes of each part.
pub proof fn lemma_utf8_size_concat(a: Seq<char>, b: Seq<char>)
    ensures
        utf8_size(a + b) == utf8_size(a) + utf8_size(b),
    decreases b.len(),
{
    if b.len() > 0 {
        lemma_utf8_size_concat(a, b.drop_last());
        assert((a + b).drop_last() =~= a + b.drop_last());
    } else {
        assert(a + b =~= a);
    }
}

/// The bytes of a longer prefix are more: each char takes at least one byte.
pub proof fn lemma_utf8_size_prefix(s: Seq<char>, j: int, k: int)
    requires
        0 <= j <= k <= s.len(),
    ensures
        utf8_size(s.take(j)) + (k - j) <= utf8_size(s.take(k)),
    decreases k - j,
{
    if j < k {
        lemma_utf8_size_prefix(s, j, k - 1);
        assert(s.take(k).drop_last() =~= s.take(k - 1));
    }
}

/// The number of chars whose UTF-8 bytes fill exactly the first `b` bytes of
/// `s`, if `b` falls between two chars (or at either end).
pub open spec fn chars_before(s: Seq<char>, b: int) -> Option<int>
    decreases s.len(),
{
    if b == utf8_size(s) {
        Some(s.len() as int)
    } else if s.len() == 0 {
        None
    } else {
        chars_before(s.drop_last(), b)
    }
}

/// `b` falls between two chars of `s` exactly where some prefix of `s` takes
/// `b` bytes, and that prefix is the one `chars_before` counts.
pub proof fn lemma_chars_before(s: Seq<char>, b: int, k: int)
    ensures
        chars_before(s, b) matches Some(n) ==> 0 <= n <= s.len() && utf8_size(s.take(n)) == b,
        0 <= k <= s.len() && utf8_size(s.take(k)) == b ==> chars_before(s, b) == Some(k),
    decreases s.len(),
{
    assert(s.take(s.len() as int) =~= s);
    if s.len() > 0 {
        let d = s.drop_last();
        lemma_chars_before(d, b, k);
        if 0 <= k < s.len() {
            assert(s.take(k) =~= d.take(k));
            lemma_utf8_size_prefix(s, k, s.len() as int);
        }
        if let Some(n) = chars_before(d, b) {
            assert(s.take(n) =~= d.take(n));
        }
    }
}

/// The number of chars of `data` before the byte offset `b`, where `b` falls
/// between two chars.
pub(crate) fn chars_before_offset(data: &Vec<char>, b: usize) -> (r: Option<usize>)
    requires
        utf8_size(data@) <= usize::MAX,
    ensures
        r matches Some(k) ==> chars_before(data@, b as int) == Some(k as int),
        r is None ==> chars_before(data@, b as int) is None,
{
    let mut i: usize = 0;
    let mut acc: usize = 0;
    proof {
        assert(data@.take(0) =~= Seq::<char>::empty());
    }
    while i < data.len() && acc < b
        invariant
            utf8_size(data@) <= usize::MAX,
            i <= data@.len(),
            acc == utf8_size(data@.take(i as int)),
            i > 0 ==> utf8_size(data@.take(i - 1)) < b,
        decreases data@.len() - i,
    {
        proof {
            assert(data@.take(i + 1).drop_last() =~= data@.take(i as int));
            lemma_utf8_size_prefix(data@, i + 1, data@.len() as int);
            assert(data@.take(data@.len() as int) =~= data@);
        }
        acc = acc + char_utf8_len(data[i]);
        i = i + 1;
    }
    proof {
        lemma_chars_before(data@, b as int, i as int);
        assert(data@.take(data@.len() as int) =~= data@);
    }
    if acc == b {
        Some(i)
    } else {
        proof {
            if let Some(n) = chars_before(data@, b as int) {
                if n < i {
                    if i > 0 {
                        lemma_utf8_size_prefix(data@, n, i - 1);
                    }
                } else {
                    lemma_utf8_size_prefix(data@, i as int, n);
                }
            }
        }
        None
    }
}

/// The bytes of the first `k` chars of `s`, and those of the chars up to and
/// including the `k`th: the second is the first plus the `k`th char's bytes, and
/// neither is more than all of `s` takes.
pub proof fn lemma_step(s: Seq<char>, k: int)
    requires
        0 <= k < s.len(),
    ensures
        utf8_size(s.take(k + 1)) == utf8_size(s.take(k)) + utf8_len(s[k]),
        utf8_size(s.take(k + 1)) <= utf8_size(s),
        chars_before(s, utf8_size(s.take(k)) as int) == Some(k),
        chars_before(s, utf8_size(s.take(k + 1)) as int) == Some(k + 1),
{
    assert(s.take(k + 1).drop_last() =~= s.take(k));
    lemma_utf8_size_prefix(s, k + 1, s.len() as int);
    assert(s.take(s.len() as int) =~= s);
    lemma_chars_before(s, utf8_size(s.take(k)) as int, k);
    lemma_chars_before(s, utf8_size(s.take(k + 1)) as int, k + 1);
}

/// The number of bytes of the UTF-8 encoding of `data`.
pub(crate) fn utf8_size_of(data: &Vec<char>) -> (r: usize)
    requires
        utf8_size(data@) <= usize::MAX,
    ensures
        r == utf8_size(data@),
{
    let mut i: usize = 0;
    let mut n: usize = 0;
    proof {
        assert(data@.take(0) =~= Seq::<char>::empty());
    }
    while i < data.len()
        invariant
            utf8_size(data@) <= usize::MAX,
            i <= data@.len(),
            n == utf8_size(data@.take(i as int)),
        decreases data@.len() - i,
    {
        proof {
            lemma_step(data@, i as int);
        }
        n = n + char_utf8_len(data[i]);
        i = i + 1;
    }
    proof {
        assert(data@.take(data@.len() as int) =~= data@);
    }
    n
}


/// The bytes of `s` are those of its first `k` chars and those of the rest.
pub proof fn lemma_utf8_size_split(s: Seq<char>, k: int)
    requires
        0 <= k <= s.len(),
    ensures
        utf8_size(s) == utf8_size(s.take(k)) + utf8_size(s.skip(k)),
{
    assert(s =~= s.take(k) + s.skip(k));
    lemma_utf8_size_concat(s.take(k), s.skip(k));
}

/// Taking out the char at `k` takes out its bytes.
pub proof fn lemma_utf8_size_remove(s: Seq<char>, k: int)
    requires
        0 <= k < s.len(),
    ensures
        utf8_size(s.remove(k)) + utf8_len(s[k]) == utf8_size(s),
{
    lemma_utf8_size_split(s, k);
    lemma_utf8_size_split(s.skip(k), 1);
    assert(s.skip(k).take(1) =~= seq![s[k]]);
    assert(utf8_size(seq![s[k]]) == utf8_len(s[k])) by {
        assert(seq![s[k]].drop_last() =~= Seq::<char>::empty());
        assert(utf8_size(Seq::<char>::empty()) == 0);
    }
    assert(s.skip(k).skip(1) =~= s.skip(k + 1));
    assert(s.remove(k) =~= s.take(k) + s.skip(k + 1));
    lemma_utf8_size_concat(s.take(k), s.skip(k + 1));
}

/// Putting in a char adds its bytes.
pub proof fn lemma_utf8_size_insert(s: Seq<char>, k: int, c: char)
    requires
        0 <= k <= s.len(),
    ensures
        utf8_size(s.insert(k, c)) == utf8_size(s) + utf8_len(c),
{
    let t = s.insert(k, c);
    lemma_utf8_size_remove(t, k);
    assert(t.remove(k) =~= s);
}

} // verus!
