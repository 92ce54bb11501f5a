use vstd::prelude::*;

verus! {

/// One parameter of a Select Graphic Rendition escape, as it affects the
/// terminal.
#[derive(Debug, Clone, Copy, PartialEq, Eq, Structural)]
pub enum AnsiEscape {
    Foreground(u8),
    Background(u8),
    Reset,
}

/// Decoder for the parameter list of `ESC [ ... m` escapes.
pub struct Ansi;

/// The number the decimal digits `s` denote.
pub open spec fn digits_value(s: Seq<char>) -> int
    decreases s.len(),
{
    if s.len() == 0 {
        0
    } else {
        digits_value(s.drop_last()) * 10 + (s.last() as int - '0' as int)
    }
}

pub open spec fn is_digit(c: char) -> bool {
    '0' <= c && c <= '9'
}

pub open spec fn all_digits(d: Seq<char>) -> bool {
    forall|i: int| 0 <= i < d.len() ==> is_digit(#[trigger] d[i])
}

/// The byte a parameter text denotes, as decimal parsing of a `u8` reads
/// it: an optional `+`, then one or more digits, with a value up to 255.
pub open spec fn u8_of(s: Seq<char>) -> Option<u8> {
    let d = if s.len() > 0 && s[0] == '+' { s.drop_first() } else { s };
    if d.len() > 0 && all_digits(d) && digits_value(d) <= 255 {
        Some(digits_value(d) as u8)
    } else {
        None
    }
}

/// The escape one parameter stands for, and the brightness flag after
/// it. Bright colors (after a `1`) are the basic ones plus eight.
pub open spec fn code_of(num: u8, light: bool) -> (Option<AnsiEscape>, bool) {
    if num == 0 {
        (Some(AnsiEscape::Reset), light)
    } else if num == 1 {
        (None, true)
    } else if 30 <= num <= 37 {
        (Some(AnsiEscape::Foreground(if light { (num - 22) as u8 } else { (num - 30) as u8 })), light)
    } else if 40 <= num <= 47 {
        (Some(AnsiEscape::Background(if light { (num - 32) as u8 } else { (num - 40) as u8 })), light)
    } else {
        (None, light)
    }
}

/// End of the parameter that starts at `i`: the next `;` or `m`, or the
/// end of the text.
pub open spec fn seg_end(s: Seq<char>, i: int) -> int
    decreases s.len() - i,
{
    if i >= s.len() || i < 0 {
        s.len() as int
    } else if s[i] == ';' || s[i] == 'm' {
        i
    } else {
        seg_end(s, i + 1)
    }
}

/// From `i` on, `s` holds parameters separated by `;`, each a valid
/// byte, and the last ended by `m`.
pub open spec fn params_ok(s: Seq<char>, i: int) -> bool
    decreases s.len() - i,
{
    let e = seg_end(s, i);
    &&& 0 <= i
    &&& e < s.len()
    &&& u8_of(s.subrange(i, e)).is_some()
    &&& (s[e] == 'm' || (i <= e && params_ok(s, e + 1)))
}

/// Position of the `m` that ends the parameter list starting at `i`.
pub open spec fn params_end(s: Seq<char>, i: int) -> int
    decreases s.len() - i,
{
    let e = seg_end(s, i);
    if e >= s.len() || i < 0 || e < i || s[e] == 'm' {
        e
    } else {
        params_end(s, e + 1)
    }
}

/// The escapes of the parameter list starting at `i`, in order, one per
/// parameter.
pub open spec fn codes_from(s: Seq<char>, i: int, light: bool) -> Seq<Option<AnsiEscape>>
    decreases s.len() - i,
{
    let e = seg_end(s, i);
    let (code, light2) = code_of(u8_of(s.subrange(i, e)).unwrap(), light);
    if e >= s.len() || i < 0 || e < i || s[e] == 'm' {
        seq![code]
    } else {
        seq![code].add(codes_from(s, e + 1, light2))
    }
}

proof fn lemma_seg_end(s: Seq<char>, i: int)
    requires
        0 <= i <= s.len(),
    ensures
        i <= seg_end(s, i) <= s.len(),
        forall|k: int| i <= k < seg_end(s, i) ==> s[k] != ';' && s[k] != 'm',
        seg_end(s, i) < s.len() ==> (s[seg_end(s, i)] == ';' || s[seg_end(s, i)] == 'm'),
    decreases s.len() - i,
{
    if i < s.len() && s[i] != ';' && s[i] != 'm' {
        lemma_seg_end(s, i + 1);
    }
}

/// A well-formed parameter list ends at an `m` at or after its start.
pub proof fn lemma_params_end(s: Seq<char>, i: int)
    requires
        params_ok(s, i),
    ensures
        i <= params_end(s, i) < s.len(),
        s[params_end(s, i)] == 'm',
    decreases s.len() - i,
{
    lemma_seg_end(s, i);
    let e = seg_end(s, i);
    if s[e] != 'm' {
        lemma_params_end(s, e + 1);
    }
}

/// Reads the parameter `chars[start..end]` as a byte.
fn parse_u8(chars: &[char], start: usize, end: usize) -> (r: Option<u8>)
    requires
        start <= end <= chars@.len(),
    ensures
        r == u8_of(chars@.subrange(start as int, end as int)),
{
    let ghost s = chars@.subrange(start as int, end as int);
    let mut i = start;
    if i < end && chars[i] == '+' {
        i = i + 1;
    }
    let ghost d = chars@.subrange(i as int, end as int);
    proof {
        if s.len() > 0 && s[0] == '+' {
            assert(d =~= s.drop_first());
        } else {
            assert(d =~= s);
        }
    }
    if i == end {
        return None;
    }
    let first = i;
    let mut acc: u32 = 0;
    while i < end
        invariant
            start <= first <= i <= end <= chars@.len(),
            d == chars@.subrange(first as int, end as int),
            s == chars@.subrange(start as int, end as int),
            d == (if s.len() > 0 && s[0] == '+' { s.drop_first() } else { s }),
            forall|k: int| first <= k < i ==> is_digit(#[trigger] chars@[k]),
            acc <= 256,
            acc == (if digits_value(chars@.subrange(first as int, i as int)) < 256 {
                digits_value(chars@.subrange(first as int, i as int))
            } else {
                256
            }),
        decreases end - i,
    {
        let c = chars[i];
        if c < '0' || c > '9' {
            proof {
                assert(d[i - first] == c);
                assert(!is_digit(d[i - first]));
            }
            return None;
        }
        let digit = (c as u32) - ('0' as u32);
        let ghost prefix = chars@.subrange(first as int, i as int);
        let ghost longer = chars@.subrange(first as int, i + 1 as int);
        proof {
            assert(longer.drop_last() =~= prefix);
            assert(longer.last() == c);
            assert(digits_value(longer) == digits_value(prefix) * 10 + digit);
            assert(digits_value(prefix) >= 0) by {
                lemma_digits_nonneg(chars@, first as int, i as int);
            }
            if digits_value(prefix) >= 256 {
                assert(digits_value(prefix) * 10 >= 2560) by (nonlinear_arith)
                    requires digits_value(prefix) >= 256;
            }
        }
        let next = acc * 10 + digit;
        acc = if next < 256 { next } else { 256 };
        i = i + 1;
    }
    proof {
        assert(chars@.subrange(first as int, end as int) == d);
        assert forall|k: int| 0 <= k < d.len() implies is_digit(#[trigger] d[k]) by {
            assert(d[k] == chars@[first + k]);
        }
    }
    if acc < 256 {
        Some(acc as u8)
    } else {
        None
    }
}

proof fn lemma_digits_nonneg(s: Seq<char>, a: int, b: int)
    requires
        0 <= a <= b <= s.len(),
        forall|k: int| a <= k < b ==> is_digit(#[trigger] s[k]),
    ensures
        digits_value(s.subrange(a, b)) >= 0,
    decreases b - a,
{
    if b > a {
        lemma_digits_nonneg(s, a, b - 1);
        assert(s.subrange(a, b).drop_last() =~= s.subrange(a, b - 1));
        assert(is_digit(s[b - 1]));
    }
}

/// The escape one parameter stands for; a `1` switches to bright colors.
fn code_for(num: u8, light: &mut bool) -> (r: Option<AnsiEscape>)
    ensures
        (r, *final(light)) == code_of(num, *old(light)),
{
    if num == 0 {
        Some(AnsiEscape::Reset)
    } else if num == 1 {
        *light = true;
        None
    } else if 30 <= num && num <= 37 {
        let color = if !*light { num - 30 } else { num - 22 };
        Some(AnsiEscape::Foreground(color))
    } else if 40 <= num && num <= 47 {
        let color = if !*light { num - 40 } else { num - 32 };
        Some(AnsiEscape::Background(color))
    } else {
        None
    }
}

impl Ansi {
    /// Decodes the parameter list of an escape, `chars` starting just
    /// after `ESC [`: one entry per parameter, and the number of
    /// characters before the closing `m`.
    pub fn parse(chars: &[char]) -> (r: (Vec<Option<AnsiEscape>>, usize))
        requires
            params_ok(chars@, 0),
        ensures
            r.0@ == codes_from(chars@, 0, false),
            r.1 == params_end(chars@, 0),
    {
        Ansi::parse_at(chars, 0).unwrap()
    }

    /// Decodes the parameter list starting at `start`, returning the
    /// entries and the position of the closing `m`; `None` when the list
    /// is malformed (a parameter that is not a byte, or no closing `m`).
    pub fn parse_at(chars: &[char], start: usize) -> (r: Option<(Vec<Option<AnsiEscape>>, usize)>)
        requires
            start <= chars@.len(),
        ensures
            r.is_some() == params_ok(chars@, start as int),
            r matches Some((codes, end)) ==> codes@ == codes_from(chars@, start as int, false)
                && end == params_end(chars@, start as int),
    {
        let n = chars.len();
        let mut i: usize = start;
        let mut vec: Vec<Option<AnsiEscape>> = Vec::new();
        let mut light = false;
        let mut end = false;
        while !end
            invariant
                n == chars@.len(),
                start <= i <= n,
                !end ==> {
                    &&& params_ok(chars@, start as int) == params_ok(chars@, i as int)
                    &&& params_ok(chars@, i as int) ==> {
                        &&& codes_from(chars@, start as int, false) == vec@.add(codes_from(chars@, i as int, light))
                        &&& params_end(chars@, start as int) == params_end(chars@, i as int)
                    }
                },
                end ==> params_ok(chars@, start as int) && vec@ == codes_from(chars@, start as int, false)
                    && i == params_end(chars@, start as int),
            decreases n - i + (if end { 0int } else { 1int }),
        {
            let seg = i;
            let mut j = i;
            proof {
                lemma_seg_end(chars@, seg as int);
            }
            while j < n && chars[j] != ';' && chars[j] != 'm'
                invariant
                    n == chars@.len(),
                    seg <= j <= seg_end(chars@, seg as int),
                    seg_end(chars@, seg as int) <= n,
                    forall|k: int| seg <= k < seg_end(chars@, seg as int) ==> chars@[k] != ';' && chars@[k] != 'm',
                    seg_end(chars@, seg as int) < n ==> (chars@[seg_end(chars@, seg as int)] == ';'
                        || chars@[seg_end(chars@, seg as int)] == 'm'),
                decreases seg_end(chars@, seg as int) - j,
            {
                j = j + 1;
            }
            if j == n {
                return None;
            }
            let num = match parse_u8(chars, seg, j) {
                Some(v) => v,
                None => {
                    return None;
                },
            };
            let ghost light0 = light;
            let code = code_for(num, &mut light);
            let ghost v0 = vec@;
            vec.push(code);
            if chars[j] == 'm' {
                end = true;
                proof {
                    assert(codes_from(chars@, seg as int, light0) == seq![code]);
                    assert(vec@ =~= v0.add(seq![code]));
                }
                i = j;
            } else {
                proof {
                    let rest = codes_from(chars@, j + 1, light);
                    assert(codes_from(chars@, seg as int, light0) == seq![code].add(rest));
                    assert(v0.add(seq![code].add(rest)) =~= vec@.add(rest));
                }
                i = j + 1;
            }
        }
        Some((vec, i))
    }
}

} // verus!
