use vstd::prelude::*;

use crate::maimai::parser::favorite_songs::{Idx, Token};
use crate::text::{dec, push_char, push_decimal, push_str};
use vstd::string::StringSliceAdditionalSpecFns;

verus! {

/// Bytes that `application/x-www-form-urlencoded` leaves as they are:
/// ASCII letters and digits, `*`, `-`, `.` and `_`.
pub open spec fn form_unreserved(b: u8) -> bool {
    (0x30 <= b <= 0x39) || (0x41 <= b <= 0x5a) || (0x61 <= b <= 0x7a) || b == 0x2a || b == 0x2d
        || b == 0x2e || b == 0x5f
}

/// An upper-case hexadecimal digit.
pub open spec fn hex_digit(d: int) -> char {
    if d < 10 {
        (('0' as int) + d) as char
    } else {
        (('A' as int) + d - 10) as char
    }
}

/// How `application/x-www-form-urlencoded` writes a byte: unreserved
/// bytes as they are, a space as `+`, any other byte as `%XX`.
pub open spec fn form_byte(b: u8) -> Seq<char> {
    if form_unreserved(b) {
        seq![b as char]
    } else if b == 0x20 {
        seq!['+']
    } else {
        seq!['%', hex_digit((b / 16) as int), hex_digit((b % 16) as int)]
    }
}

/// The bytes written one after the other.
pub open spec fn form_bytes(s: Seq<u8>) -> Seq<char>
    decreases s.len(),
{
    if s.len() == 0 {
        Seq::empty()
    } else {
        form_bytes(s.drop_last()) + form_byte(s.last())
    }
}

/// A text written in `application/x-www-form-urlencoded`: its UTF-8 bytes,
/// each written as `form_byte` says.
pub open spec fn form_text(s: Seq<char>) -> Seq<char> {
    form_bytes(vstd::utf8::encode_utf8(s))
}

fn hex_digit_char(d: u8) -> (c: char)
    requires
        d < 16,
    ensures
        c == hex_digit(d as int),
{
    if d < 10 {
        (('0' as u8) + d) as char
    } else {
        (('A' as u8) + d - 10) as char
    }
}

fn push_form_byte(s: &mut String, b: u8)
    ensures
        final(s)@ == old(s)@ + form_byte(b),
{
    if (0x30 <= b && b <= 0x39) || (0x41 <= b && b <= 0x5a) || (0x61 <= b && b <= 0x7a) || b
        == 0x2a || b == 0x2d || b == 0x2e || b == 0x5f {
        push_char(s, b as char);
    } else if b == 0x20 {
        push_char(s, '+');
    } else {
        push_char(s, '%');
        push_char(s, hex_digit_char(b / 16));
        push_char(s, hex_digit_char(b % 16));
    }
    assert(s@ =~= old(s)@ + form_byte(b));
}

/// Appends a text written in `application/x-www-form-urlencoded`.
pub fn push_form_text(s: &mut String, t: &str)
    ensures
        final(s)@ == old(s)@ + form_text(t@),
{
    let bytes = t.as_bytes();
    let ghost start = s@;
    let n = bytes.len();
    let mut i: usize = 0;
    assert(bytes@.take(0) =~= Seq::<u8>::empty());
    while i < n
        invariant
            0 <= i <= n,
            n == bytes@.len(),
            bytes@ == t.spec_bytes(),
            s@ == start + form_bytes(bytes@.take(i as int)),
        decreases n - i,
    {
        assert(bytes@.take(i + 1).drop_last() =~= bytes@.take(i as int));
        push_form_byte(s, bytes[i]);
        assert(s@ =~= start + form_bytes(bytes@.take(i + 1)));
        i = i + 1;
    }
    assert(bytes@.take(n as int) =~= bytes@);
}

/// The form that sets the favourite songs: the list number (99 by default),
/// the songs and the session token.
#[derive(Debug)]
pub struct SetFavoriteSong {
    pub idx: u8,
    pub music: Vec<Idx>,
    pub token: Token,
}

/// `&music%5B%5D=` and a song, for each song.
pub open spec fn music_pairs(music: Seq<Idx>) -> Seq<char>
    decreases music.len(),
{
    if music.len() == 0 {
        Seq::empty()
    } else {
        music_pairs(music.drop_last()) + "&music%5B%5D="@ + form_text(music.last().0@)
    }
}

/// The form as a query string, as `serde_html_form` writes it.
pub open spec fn set_favorite_query(f: SetFavoriteSong) -> Seq<char> {
    "idx="@ + dec(f.idx as nat) + music_pairs(f.music@) + "&token="@ + form_text(f.token.0@)
}

impl SetFavoriteSong {
    /// The form with the default list number.
    pub fn new(music: Vec<Idx>, token: Token) -> (r: SetFavoriteSong)
        ensures
            r.idx == 99,
            r.music@ == music@,
            r.token == token,
    {
        SetFavoriteSong { idx: 99, music, token }
    }

    /// The body of the request.
    pub fn query_string(&self) -> (r: String)
        ensures
            r@ == set_favorite_query(*self),
    {
        let mut s = String::new();
        push_str(&mut s, "idx=");
        push_decimal(&mut s, self.idx as u64);
        let ghost head = s@;
        let n = self.music.len();
        let mut i: usize = 0;
        assert(self.music@.take(0) =~= Seq::<Idx>::empty());
        while i < n
            invariant
                0 <= i <= n,
                n == self.music@.len(),
                s@ == head + music_pairs(self.music@.take(i as int)),
            decreases n - i,
        {
            assert(self.music@.take(i + 1).drop_last() =~= self.music@.take(i as int));
            push_str(&mut s, "&music%5B%5D=");
            push_form_text(&mut s, self.music[i].0.as_str());
            assert(s@ =~= head + music_pairs(self.music@.take(i + 1)));
            i = i + 1;
        }
        assert(self.music@.take(n as int) =~= self.music@);
        push_str(&mut s, "&token=");
        push_form_text(&mut s, self.token.0.as_str());
        s
    }
}

} // verus!
