use vstd::prelude::*;

use crate::text::{find_char, starts_with, str_eq};

verus! {

/// Why an image could not be read.
#[derive(Clone, PartialEq, Eq, Debug)]
pub enum ImgSrcError {
    /// The element has no `src` attribute.
    NoSrc,
    /// The address is none that this library knows.
    UnknownSrc(String),
}

/// The directory of the site's images: the Japanese site, or the
/// international one.
pub open spec fn img_dir(intl: bool) -> Seq<char> {
    if intl {
        "https://maimaidx-eng.com/maimai-mobile/img/"@
    } else {
        "https://maimaidx.jp/maimai-mobile/img/"@
    }
}

/// What follows an image's path: the extension, and the release of the site
/// that it was published with, if the address names one.
pub open spec fn img_suffix(ver: Option<Seq<char>>) -> Seq<char> {
    match ver {
        None => ".png"@,
        Some(v) => ".png?ver="@ + v,
    }
}

/// The address of an image of the site.
pub open spec fn img_src(intl: bool, path: Seq<char>, ver: Option<Seq<char>>) -> Seq<char> {
    img_dir(intl) + path + img_suffix(ver)
}

/// No `.` in the string.
pub open spec fn no_dot(p: Seq<char>) -> bool {
    forall|i: int| 0 <= i < p.len() ==> p[i] != '.'
}

/// `s` is the address of an image under this site, path and release.
pub open spec fn is_img_src(s: Seq<char>, parts: (bool, Seq<char>, Option<Seq<char>>)) -> bool {
    no_dot(parts.1) && s == img_src(parts.0, parts.1, parts.2)
}

/// The site, path and release of an image address, if `s` is one. (They are
/// unique: see `lemma_img_src_unique`.)
pub open spec fn img_src_parts(s: Seq<char>) -> Option<(bool, Seq<char>, Option<Seq<char>>)> {
    if exists|parts: (bool, Seq<char>, Option<Seq<char>>)| is_img_src(s, parts) {
        Some(choose|parts: (bool, Seq<char>, Option<Seq<char>>)| is_img_src(s, parts))
    } else {
        None
    }
}

pub open spec fn opt_view(v: Option<&str>) -> Option<Seq<char>> {
    match v {
        Some(x) => Some(x@),
        None => None,
    }
}

/// The image addresses of the two sites: `https://maimaidx.jp/maimai-mobile/img/` and
/// `https://maimaidx-eng.com/maimai-mobile/img/`, then the path, `.png`, and
/// `?ver=` with the release when the address names one.
pub proof fn lemma_img_address_parts(v: Seq<char>)
    ensures
        img_dir(false) == seq!['h', 't', 't', 'p', 's', ':', '/', '/', 'm', 'a', 'i', 'm', 'a', 'i', 'd', 'x', '.', 'j', 'p', '/', 'm', 'a', 'i', 'm', 'a', 'i', '-', 'm', 'o', 'b', 'i', 'l', 'e', '/', 'i', 'm', 'g', '/'],
        img_dir(true) == seq!['h', 't', 't', 'p', 's', ':', '/', '/', 'm', 'a', 'i', 'm', 'a', 'i', 'd', 'x', '-', 'e', 'n', 'g', '.', 'c', 'o', 'm', '/', 'm', 'a', 'i', 'm', 'a', 'i', '-', 'm', 'o', 'b', 'i', 'l', 'e', '/', 'i', 'm', 'g', '/'],
        img_suffix(None) == seq!['.', 'p', 'n', 'g'],
        img_suffix(Some(v)) == seq!['.', 'p', 'n', 'g', '?', 'v', 'e', 'r', '='] + v,
{
    reveal_strlit("https://maimaidx.jp/maimai-mobile/img/");
    reveal_strlit("https://maimaidx-eng.com/maimai-mobile/img/");
    reveal_strlit(".png");
    reveal_strlit(".png?ver=");
    assert(img_dir(false) =~= seq!['h', 't', 't', 'p', 's', ':', '/', '/', 'm', 'a', 'i', 'm', 'a', 'i', 'd', 'x', '.', 'j', 'p', '/', 'm', 'a', 'i', 'm', 'a', 'i', '-', 'm', 'o', 'b', 'i', 'l', 'e', '/', 'i', 'm', 'g', '/']);
    assert(img_dir(true) =~= seq!['h', 't', 't', 'p', 's', ':', '/', '/', 'm', 'a', 'i', 'm', 'a', 'i', 'd', 'x', '-', 'e', 'n', 'g', '.', 'c', 'o', 'm', '/', 'm', 'a', 'i', 'm', 'a', 'i', '-', 'm', 'o', 'b', 'i', 'l', 'e', '/', 'i', 'm', 'g', '/']);
    assert(img_suffix(None) =~= seq!['.', 'p', 'n', 'g']);
    assert(img_suffix(Some(v)) =~= seq!['.', 'p', 'n', 'g', '?', 'v', 'e', 'r', '='] + v);
}

proof fn lemma_dirs()
    ensures
        img_dir(false).len() == 38,
        img_dir(true).len() == 43,
        img_dir(false)[16] == '.',
        img_dir(true)[16] == '-',
        ".png"@ =~= seq!['.', 'p', 'n', 'g'],
        ".png?ver="@ =~= seq!['.', 'p', 'n', 'g', '?', 'v', 'e', 'r', '='],
{
    reveal_strlit("https://maimaidx-eng.com/maimai-mobile/img/");
    reveal_strlit("https://maimaidx.jp/maimai-mobile/img/");
    reveal_strlit(".png");
    reveal_strlit(".png?ver=");
}

/// An image address names one site, one path and one release.
pub proof fn lemma_img_src_unique(
    a: (bool, Seq<char>, Option<Seq<char>>),
    b: (bool, Seq<char>, Option<Seq<char>>),
)
    requires
        no_dot(a.1),
        no_dot(b.1),
        img_src(a.0, a.1, a.2) == img_src(b.0, b.1, b.2),
    ensures
        a == b,
{
    lemma_dirs();
    let s = img_src(a.0, a.1, a.2);
    if a.0 != b.0 {
        assert(s[16] == img_dir(a.0)[16]);
        assert(s[16] == img_dir(b.0)[16]);
        assert(false);
    }
    let d = img_dir(a.0).len();
    let ta = a.1 + img_suffix(a.2);
    let tb = b.1 + img_suffix(b.2);
    assert(s == img_dir(a.0) + ta);
    assert(s == img_dir(b.0) + tb);
    assert(ta =~= s.skip(d as int));
    assert(tb =~= s.skip(d as int));
    if a.1.len() < b.1.len() {
        assert(ta[a.1.len() as int] == '.');
        assert(tb[a.1.len() as int] == b.1[a.1.len() as int]);
        assert(false);
    }
    if b.1.len() < a.1.len() {
        assert(tb[b.1.len() as int] == '.');
        assert(ta[b.1.len() as int] == a.1[b.1.len() as int]);
        assert(false);
    }
    assert(a.1 =~= ta.take(a.1.len() as int));
    assert(b.1 =~= tb.take(b.1.len() as int));
    assert(a.1 == b.1);
    let sa = img_suffix(a.2);
    let sb = img_suffix(b.2);
    assert(sa =~= ta.skip(a.1.len() as int));
    assert(sb =~= tb.skip(b.1.len() as int));
    assert(sa == sb);
    match (a.2, b.2) {
        (None, None) => {},
        (Some(x), Some(y)) => {
            assert(x =~= sa.skip(9));
            assert(y =~= sb.skip(9));
        },
        (None, Some(y)) => {
            assert(sa.len() == 4);
            assert(sb.len() == 9 + y.len());
        },
        (Some(x), None) => {
            assert(sb.len() == 4);
            assert(sa.len() == 9 + x.len());
        },
    }
}

/// The parts of `s` as an image address are the given ones.
pub proof fn lemma_img_src_parts(s: Seq<char>, parts: (bool, Seq<char>, Option<Seq<char>>))
    requires
        is_img_src(s, parts),
    ensures
        img_src_parts(s) == Some(parts),
{
    let c = choose|p: (bool, Seq<char>, Option<Seq<char>>)| is_img_src(s, p);
    lemma_img_src_unique(c, parts);
}

/// Splits an image address into its site (`true` for the international
/// one), its path and its release.
pub fn split_img_src(s: &str) -> (r: Option<(bool, &str, Option<&str>)>)
    ensures
        match r {
            Some((intl, path, ver)) => img_src_parts(s@) == Some((intl, path@, opt_view(ver))),
            None => img_src_parts(s@) is None,
        },
{
    proof {
        lemma_dirs();
    }
    let jp = "https://maimaidx.jp/maimai-mobile/img/";
    let eng = "https://maimaidx-eng.com/maimai-mobile/img/";
    let n = s.unicode_len();
    let (intl, d): (bool, usize) = if starts_with(s, jp) {
        (false, jp.unicode_len())
    } else if starts_with(s, eng) {
        (true, eng.unicode_len())
    } else {
        proof {
            if exists|parts: (bool, Seq<char>, Option<Seq<char>>)| is_img_src(s@, parts) {
                let p = choose|parts: (bool, Seq<char>, Option<Seq<char>>)| is_img_src(s@, parts);
                assert(s@.subrange(0, img_dir(p.0).len() as int) =~= img_dir(p.0));
            }
        }
        return None;
    };
    assert(d as int == img_dir(intl).len());
    assert(s@.subrange(0, d as int) == img_dir(intl));
    let rest = s.substring_char(d, n);
    let dot = match find_char(rest, '.') {
        Some(j) => j,
        None => {
            proof {
                if exists|parts: (bool, Seq<char>, Option<Seq<char>>)| is_img_src(s@, parts) {
                    let p = choose|parts: (bool, Seq<char>, Option<Seq<char>>)| is_img_src(s@, parts);
                    lemma_same_site(s@, p, intl);
                    assert(rest@[p.1.len() as int] == '.');
                }
            }
            return None;
        },
    };
    let path = rest.substring_char(0, dot);
    let tail = rest.substring_char(dot, rest.unicode_len());
    assert(rest@ =~= path@ + tail@);
    assert(no_dot(path@));
    let ver: Option<&str> = if str_eq(tail, ".png") {
        None
    } else if starts_with(tail, ".png?ver=") {
        Some(tail.substring_char(9, tail.unicode_len()))
    } else {
        proof {
            if exists|parts: (bool, Seq<char>, Option<Seq<char>>)| is_img_src(s@, parts) {
                let p = choose|parts: (bool, Seq<char>, Option<Seq<char>>)| is_img_src(s@, parts);
                lemma_same_site(s@, p, intl);
                lemma_first_dot(rest@, p.1, img_suffix(p.2), dot as int);
                match p.2 {
                    None => {},
                    Some(v) => {
                        assert(tail@.subrange(0, 9) =~= ".png?ver="@);
                    },
                }
            }
        }
        return None;
    };
    proof {
        assert(tail@ =~= img_suffix(opt_view(ver)));
        assert(s@ =~= img_dir(intl) + path@ + img_suffix(opt_view(ver)));
        lemma_img_src_parts(s@, (intl, path@, opt_view(ver)));
    }
    Some((intl, path, ver))
}

/// When `s` starts with the directory of `intl`, an address `s` names that
/// site, and what follows the directory is the path and the suffix.
proof fn lemma_same_site(s: Seq<char>, p: (bool, Seq<char>, Option<Seq<char>>), intl: bool)
    requires
        is_img_src(s, p),
        img_dir(intl).len() <= s.len(),
        s.subrange(0, img_dir(intl).len() as int) == img_dir(intl),
    ensures
        p.0 == intl,
        s.skip(img_dir(intl).len() as int) == p.1 + img_suffix(p.2),
{
    lemma_dirs();
    if p.0 != intl {
        assert(s[16] == img_dir(p.0)[16]);
        assert(s.subrange(0, img_dir(intl).len() as int)[16] == s[16]);
        assert(false);
    }
    assert(s.skip(img_dir(intl).len() as int) =~= p.1 + img_suffix(p.2));
}

/// In `path + suffix`, with no dot in the path and the suffix starting with
/// a dot, the first dot ends the path.
proof fn lemma_first_dot(rest: Seq<char>, path: Seq<char>, suffix: Seq<char>, j: int)
    requires
        rest == path + suffix,
        no_dot(path),
        suffix.len() > 0,
        suffix[0] == '.',
        0 <= j < rest.len(),
        rest[j] == '.',
        forall|k: int| 0 <= k < j ==> rest[k] != '.',
    ensures
        j == path.len(),
        rest.skip(j) == suffix,
{
    if j < path.len() {
        assert(rest[j] == path[j]);
    }
    if j > path.len() {
        assert(rest[path.len() as int] == '.');
    }
    assert(rest.skip(j) =~= suffix);
}

} // verus!
