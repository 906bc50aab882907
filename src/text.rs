//! Text building blocks: decimal numbers, comma lists, protocol arguments.
use vstd::prelude::*;
use vstd::string::StrSliceExecFns;
use vstd::string::StringExecFns;
use vstd::utf8::decode_utf8;
use vstd::utf8::valid_utf8;

verus! {

/// The character of a decimal digit.
pub open spec fn digit_char(d: nat) -> char {
    if d == 0 { '0' } else if d == 1 { '1' } else if d == 2 { '2' } else if d == 3 { '3' }
    else if d == 4 { '4' } else if d == 5 { '5' } else if d == 6 { '6' } else if d == 7 { '7' }
    else if d == 8 { '8' } else { '9' }
}

/// The decimal notation of `n`, without sign or leading zeros.
pub open spec fn decimal(n: nat) -> Seq<char>
    decreases n,
{
    if n < 10 {
        seq![digit_char(n)]
    } else {
        decimal(n / 10).push(digit_char(n % 10))
    }
}

fn digit_str(d: u32) -> (r: &'static str)
    requires
        d < 10,
    ensures
        r@ == seq![digit_char(d as nat)],
{
    proof {
        reveal_strlit("0");
        reveal_strlit("1");
        reveal_strlit("2");
        reveal_strlit("3");
        reveal_strlit("4");
        reveal_strlit("5");
        reveal_strlit("6");
        reveal_strlit("7");
        reveal_strlit("8");
        reveal_strlit("9");
    }
    if d == 0 { "0" } else if d == 1 { "1" } else if d == 2 { "2" } else if d == 3 { "3" }
    else if d == 4 { "4" } else if d == 5 { "5" } else if d == 6 { "6" } else if d == 7 { "7" }
    else if d == 8 { "8" } else { "9" }
}

/// Writes `n` in decimal.
pub fn decimal_string(n: u32) -> (r: String)
    ensures
        r@ == decimal(n as nat),
    decreases n,
{
    if n < 10 {
        String::from_str(digit_str(n))
    } else {
        let mut s = decimal_string(n / 10);
        s.append(digit_str(n % 10));
        s
    }
}


/// The pieces of `s` between the occurrences of `sep`, in order; a text with
/// `k` separators has `k + 1` pieces, the empty text one empty piece.
pub open spec fn split_on(s: Seq<char>, sep: char) -> Seq<Seq<char>>
    decreases s.len(),
{
    if s.len() == 0 {
        seq![Seq::<char>::empty()]
    } else if s.last() == sep {
        split_on(s.drop_last(), sep).push(Seq::<char>::empty())
    } else {
        let p = split_on(s.drop_last(), sep);
        p.update(p.len() - 1, p.last().push(s.last()))
    }
}

proof fn lemma_split_nonempty(s: Seq<char>, sep: char)
    ensures
        split_on(s, sep).len() >= 1,
    decreases s.len(),
{
    if s.len() > 0 {
        lemma_split_nonempty(s.drop_last(), sep);
    }
}

/// The views of a vector of strings.
pub open spec fn views(v: Seq<String>) -> Seq<Seq<char>> {
    v.map_values(|x: String| x@)
}

/// Splits `s` at every comma.
pub fn split_commas(s: &str) -> (r: Vec<String>)
    ensures
        views(r@) == split_on(s@, ','),
{
    let n = s.unicode_len();
    let mut parts: Vec<String> = Vec::new();
    let mut start: usize = 0;
    let mut i: usize = 0;
    assert(views(parts@) == Seq::<Seq<char>>::empty());
    assert(s@.subrange(0, 0) == Seq::<char>::empty());
    while i < n
        invariant
            n == s@.len(),
            start <= i <= n,
            views(parts@).push(s@.subrange(start as int, i as int)) == split_on(
                s@.subrange(0, i as int),
                ',',
            ),
        decreases n - i,
    {
        let c = s.get_char(i);
        let ghost pre = s@.subrange(0, i as int);
        let ghost next = s@.subrange(0, i + 1);
        assert(next.drop_last() == pre);
        assert(next.last() == c);
        proof {
            lemma_split_nonempty(pre, ',');
        }
        if c == ',' {
            let ghost before = parts@;
            let piece = String::from_str(s.substring_char(start, i));
            parts.push(piece);
            assert(views(parts@) == views(before).push(piece@));
            i = i + 1;
            start = i;
            assert(s@.subrange(start as int, i as int) == Seq::<char>::empty());
        } else {
            i = i + 1;
            assert(s@.subrange(start as int, i as int) == s@.subrange(
                start as int,
                i - 1,
            ).push(c));
        }
    }
    let ghost before = parts@;
    let last = String::from_str(s.substring_char(start, n));
    parts.push(last);
    assert(views(parts@) == views(before).push(last@));
    assert(s@.subrange(0, n as int) == s@);
    assert(views(parts@) == split_on(s@, ','));
    parts
}


/// Whether `c` has the Unicode White_Space property.
pub open spec fn is_white_space(c: char) -> bool {
    let n = c as u32;
    (0x9 <= n <= 0xd) || n == 0x20 || n == 0x85 || n == 0xa0 || n == 0x1680 || (0x2000 <= n
        <= 0x200a) || n == 0x2028 || n == 0x2029 || n == 0x202f || n == 0x205f || n == 0x3000
}

/// The text without its leading white space.
pub open spec fn trim_start(s: Seq<char>) -> Seq<char>
    decreases s.len(),
{
    if s.len() > 0 && is_white_space(s[0]) {
        trim_start(s.drop_first())
    } else {
        s
    }
}

/// The text without its trailing white space.
pub open spec fn trim_end(s: Seq<char>) -> Seq<char>
    decreases s.len(),
{
    if s.len() > 0 && is_white_space(s.last()) {
        trim_end(s.drop_last())
    } else {
        s
    }
}

/// The text without its leading and trailing white space.
pub open spec fn trimmed(s: Seq<char>) -> Seq<char> {
    trim_end(trim_start(s))
}

/// Relies on `str::trim`: it removes the leading and trailing characters
/// with the Unicode White_Space property.
#[verifier::external_body]
fn trim(s: &str) -> (r: String)
    ensures
        r@ == trimmed(s@),
{
    s.trim().to_owned()
}

/// The trimmed pieces of a comma-separated list.
pub open spec fn comma_list(s: Seq<char>) -> Seq<Seq<char>> {
    split_on(s, ',').map_values(|p: Seq<char>| trimmed(p))
}

/// A present, non-empty setting yields at least one piece.
pub proof fn lemma_comma_list_nonempty(o: Option<Seq<char>>)
    ensures
        o matches Some(s) ==> comma_list(s).len() >= 1,
{
    if let Some(s) = o {
        lemma_split_nonempty(s, ',');
    }
}

/// Splits `s` at every comma and trims each piece.
pub fn parse_comma_list(s: &str) -> (r: Vec<String>)
    ensures
        views(r@) == comma_list(s@),
{
    let parts = split_commas(s);
    let mut out: Vec<String> = Vec::new();
    let mut i: usize = 0;
    while i < parts.len()
        invariant
            i <= parts@.len(),
            views(parts@) == split_on(s@, ','),
            views(out@) == comma_list(s@).subrange(0, i as int),
        decreases parts@.len() - i,
    {
        let ghost before = out@;
        let t = trim(parts[i].as_str());
        out.push(t);
        assert(views(out@) == views(before).push(t@));
        assert(views(parts@)[i as int] == parts@[i as int]@);
        i = i + 1;
        assert(comma_list(s@).subrange(0, i as int) == comma_list(s@).subrange(
            0,
            i - 1,
        ).push(comma_list(s@)[i - 1]));
    }
    assert(comma_list(s@).subrange(0, i as int) == comma_list(s@));
    out
}

/// The pieces joined with one space between neighbours.
pub open spec fn join_spaces(ps: Seq<Seq<char>>) -> Seq<char>
    decreases ps.len(),
{
    if ps.len() == 0 {
        Seq::<char>::empty()
    } else if ps.len() == 1 {
        ps[0]
    } else {
        join_spaces(ps.drop_last()) + seq![' '] + ps.last()
    }
}

/// Joins the strings with one space between neighbours.
pub fn join_with_spaces(v: &Vec<String>) -> (r: String)
    ensures
        r@ == join_spaces(views(v@)),
{
    let mut out = String::new();
    let mut i: usize = 0;
    while i < v.len()
        invariant
            i <= v@.len(),
            out@ == join_spaces(views(v@).subrange(0, i as int)),
        decreases v@.len() - i,
    {
        let ghost pre = views(v@).subrange(0, i as int);
        let ghost next = views(v@).subrange(0, i + 1);
        assert(next.drop_last() == pre);
        assert(next.last() == v@[i as int]@);
        let ghost was = out@;
        if i > 0 {
            out.append(" ");
            proof {
                reveal_strlit(" ");
            }
            assert(" "@ =~= seq![' ']);
            out.append(v[i].as_str());
            assert(out@ =~= was + seq![' '] + next.last());
        } else {
            out.append(v[i].as_str());
            assert(was == Seq::<char>::empty());
            assert(out@ == next.last());
        }
        i = i + 1;
        assert(join_spaces(next) == out@);
    }
    assert(views(v@).subrange(0, i as int) == views(v@));
    out
}

/// The text of a byte sequence read as UTF-8, where it is valid UTF-8.
pub open spec fn utf8_text(b: Seq<u8>) -> Option<Seq<char>> {
    if valid_utf8(b) {
        Some(decode_utf8(b))
    } else {
        None
    }
}

/// Relies on `std::str::from_utf8`: it succeeds exactly on valid UTF-8 and
/// then yields the characters the bytes encode.
#[verifier::external_body]
fn from_utf8(b: &[u8]) -> (r: Option<String>)
    ensures
        match r {
            Some(t) => utf8_text(b@) == Some(t@),
            None => utf8_text(b@) is None,
        },
{
    std::str::from_utf8(b).ok().map(|t| t.to_owned())
}

/// Reads bytes as UTF-8 text; `None` where they are not valid UTF-8.
pub fn decode_text(b: &Vec<u8>) -> (r: Option<String>)
    ensures
        match r {
            Some(t) => utf8_text(b@) == Some(t@),
            None => utf8_text(b@) is None,
        },
{
    from_utf8(b.as_slice())
}

/// The sequence set that fetches messages `1` through `count`: a single
/// index for one message, a range otherwise.
pub open spec fn fetch_range_text(count: nat) -> Seq<char> {
    if count == 1 {
        "1"@
    } else {
        "1:"@ + decimal(count)
    }
}

/// The sequence set for fetching every one of `count` messages.
pub fn fetch_range(count: u32) -> (r: String)
    requires
        count >= 1,
    ensures
        r@ == fetch_range_text(count as nat),
{
    if count == 1 {
        String::from_str("1")
    } else {
        let mut r = String::from_str("1:");
        let d = decimal_string(count);
        r.append(d.as_str());
        r
    }
}

/// The search criterion that finds messages by their Message-ID header.
pub open spec fn search_criterion_text(id: Seq<char>) -> Seq<char> {
    "HEADER Message-ID "@ + id
}

/// The search criterion for the message identifier `id`, used verbatim.
pub fn search_criterion(id: &str) -> (r: String)
    ensures
        r@ == search_criterion_text(id@),
{
    let mut r = String::from_str("HEADER Message-ID ");
    r.append(id);
    r
}

} // verus!
