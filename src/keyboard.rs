use vstd::prelude::*;


verus! {

/// A key the decoder completed: a character, or the name of a key that
/// has none.
#[derive(Debug, PartialEq, Eq)]
pub enum Key {
    Unicode(char),
    Raw(Vec<u8>),
}

/// The UTF-8 encoding of `c`.
pub open spec fn utf8_of(c: char) -> Seq<u8> {
    let v = (c as u32) as int;
    if v < 0x80 {
        seq![v as u8]
    } else if v < 0x800 {
        seq![(0xC0 + v / 64) as u8, (0x80 + v % 64) as u8]
    } else if v < 0x10000 {
        seq![(0xE0 + v / 4096) as u8, (0x80 + (v / 64) % 64) as u8, (0x80 + v % 64) as u8]
    } else {
        seq![(0xF0 + v / 262144) as u8, (0x80 + (v / 4096) % 64) as u8, (0x80 + (v / 64) % 64) as u8,
            (0x80 + v % 64) as u8]
    }
}

/// What echoing a key writes.
pub open spec fn key_bytes(k: Option<Key>) -> Seq<u8> {
    match k {
        Some(Key::Unicode(c)) => utf8_of(c),
        Some(Key::Raw(name)) => name@,
        None => Seq::empty(),
    }
}

/// Encodes a character as UTF-8.
pub fn encode_utf8(c: char) -> (r: Vec<u8>)
    ensures
        r@ == utf8_of(c),
{
    let v = c as u32;
    let mut r: Vec<u8> = Vec::new();
    if v < 0x80 {
        r.push(v as u8);
    } else if v < 0x800 {
        r.push(#[verifier::truncate] ((0xC0 + v / 64) as u8));
        r.push((0x80 + v % 64) as u8);
    } else if v < 0x10000 {
        r.push(#[verifier::truncate] ((0xE0 + v / 4096) as u8));
        r.push((0x80 + (v / 64) % 64) as u8);
        r.push((0x80 + v % 64) as u8);
    } else {
        r.push(#[verifier::truncate] ((0xF0 + v / 262144) as u8));
        r.push((0x80 + (v / 4096) % 64) as u8);
        r.push((0x80 + (v / 64) % 64) as u8);
        r.push((0x80 + v % 64) as u8);
    }
    assert(r@ =~= utf8_of(c));
    r
}

/// The bytes that echo a decoded key: a character as UTF-8, a key
/// without one by its name, nothing for no key.
pub fn key_text(key: &Option<Key>) -> (r: Vec<u8>)
    ensures
        r@ == key_bytes(*key),
{
    match key {
        Some(Key::Unicode(c)) => encode_utf8(*c),
        Some(Key::Raw(name)) => {
            let mut out: Vec<u8> = Vec::new();
            let n = name.len();
            let mut i: usize = 0;
            while i < n
                invariant
                    n == name@.len(),
                    0 <= i <= n,
                    out@ == name@.take(i as int),
                decreases n - i,
            {
                out.push(name[i]);
                proof {
                    assert(out@ =~= name@.take(i as int + 1));
                }
                i = i + 1;
            }
            assert(out@ =~= name@);
            out
        },
        None => Vec::new(),
    }
}

} // verus!
