//! Character-level text utilities: collecting the characters of a string,
//! trimming whitespace, ASCII-case-insensitive comparison, and parsing
//! decimal numbers and comma-separated id lists.
use vstd::prelude::*;

verus! {

/// Case folding for ASCII letters: uppercase letters map to their lowercase
/// counterpart, every other character is unchanged.
pub open spec fn to_lower(c: char) -> char {
    if 'A' <= c && c <= 'Z' {
        ((c as u8) + 32) as char
    } else {
        c
    }
}

/// ASCII-case-insensitive equality of two character sequences.
pub open spec fn eq_ignore_case(a: Seq<char>, b: Seq<char>) -> bool {
    a.len() == b.len() && (forall|i: int| 0 <= i < a.len() ==> to_lower(a[i]) == to_lower(b[i]))
}

/// The whitespace characters that trimming removes.
pub open spec fn is_space(c: char) -> bool {
    c == ' ' || c == '\t' || c == '\n' || c == '\r'
}

/// The sequence without its leading whitespace.
pub open spec fn trim_front(s: Seq<char>) -> Seq<char>
    decreases s.len(),
{
    if s.len() > 0 && is_space(s[0]) {
        trim_front(s.drop_first())
    } else {
        s
    }
}

/// The sequence without its trailing whitespace.
pub open spec fn trim_back(s: Seq<char>) -> Seq<char>
    decreases s.len(),
{
    if s.len() > 0 && is_space(s.last()) {
        trim_back(s.drop_last())
    } else {
        s
    }
}

/// The sequence without leading and trailing whitespace.
pub open spec fn trim_spec(s: Seq<char>) -> Seq<char> {
    trim_back(trim_front(s))
}

pub open spec fn is_digit(c: char) -> bool {
    '0' <= c && c <= '9'
}

pub open spec fn digit_val(c: char) -> nat {
    ((c as u8) - 48) as nat
}

pub open spec fn is_digits(s: Seq<char>) -> bool {
    forall|i: int| 0 <= i < s.len() ==> is_digit(s[i])
}

/// The numeric value of a sequence of decimal digits, most significant first.
pub open spec fn dec_value(s: Seq<char>) -> nat
    decreases s.len(),
{
    if s.len() == 0 {
        0
    } else {
        dec_value(s.drop_last()) * 10 + digit_val(s.last())
    }
}

/// What parsing a (pre-trimmed) token as a `u32` yields: the token must be a
/// non-empty run of decimal digits whose value fits.
pub open spec fn parse_u32_spec(s: Seq<char>) -> Option<u32> {
    if s.len() > 0 && is_digits(s) && dec_value(s) <= u32::MAX {
        Some(dec_value(s) as u32)
    } else {
        None
    }
}

/// What parsing a (pre-trimmed) token as a `usize` yields.
pub open spec fn parse_usize_spec(s: Seq<char>) -> Option<usize> {
    if s.len() > 0 && is_digits(s) && dec_value(s) <= usize::MAX {
        Some(dec_value(s) as usize)
    } else {
        None
    }
}

/// The ids contributed by one comma-separated token: the parsed value if the
/// token, after trimming, is a valid `u32`, and nothing otherwise.
pub open spec fn token_ids(tok: Seq<char>) -> Seq<u32> {
    match parse_u32_spec(trim_spec(tok)) {
        Some(n) => seq![n],
        None => Seq::empty(),
    }
}

/// Splitting `s` at commas and parsing each token, with `cur` the token
/// accumulated so far.
pub open spec fn parse_ids_rec(s: Seq<char>, cur: Seq<char>) -> Seq<u32>
    decreases s.len(),
{
    if s.len() == 0 {
        token_ids(cur)
    } else if s[0] == ',' {
        token_ids(cur) + parse_ids_rec(s.drop_first(), Seq::empty())
    } else {
        parse_ids_rec(s.drop_first(), cur.push(s[0]))
    }
}

/// The ids obtained from a comma-separated list: tokens are trimmed, parsed
/// as decimal `u32`, and those that do not parse are dropped.
pub open spec fn parse_ids_spec(s: Seq<char>) -> Seq<u32> {
    parse_ids_rec(s, Seq::empty())
}

/// The characters of a string, in order.
pub fn chars_of(s: &str) -> (r: Vec<char>)
    ensures
        r@ == s@,
{
    let mut r: Vec<char> = Vec::new();
    for c in it: s.chars()
        invariant
            it.seq() == s@,
            r@ == it.seq().subrange(0, it.index() as int),
    {
        r.push(c);
        assert(r@ =~= it.seq().subrange(0, it.index() + 1));
    }
    assert(r@ =~= s@);
    r
}

pub fn is_space_char(c: char) -> (r: bool)
    ensures
        r == is_space(c),
{
    c == ' ' || c == '\t' || c == '\n' || c == '\r'
}

/// A copy of `v[from..to]`.
pub fn subvec(v: &Vec<char>, from: usize, to: usize) -> (r: Vec<char>)
    requires
        from <= to <= v@.len(),
    ensures
        r@ == v@.subrange(from as int, to as int),
{
    let mut r: Vec<char> = Vec::new();
    let mut i: usize = from;
    while i < to
        invariant
            from <= i <= to <= v@.len(),
            r@ == v@.subrange(from as int, i as int),
        decreases to - i,
    {
        r.push(v[i]);
        i = i + 1;
        assert(r@ =~= v@.subrange(from as int, i as int));
    }
    r
}

/// The characters of `v` without leading and trailing whitespace.
pub fn trim_chars(v: &Vec<char>) -> (r: Vec<char>)
    ensures
        r@ == trim_spec(v@),
{
    let len: usize = v.len();
    proof {
        assert(v@.subrange(0, len as int) =~= v@);
    }
    let mut start: usize = 0;
    while start < len && is_space_char(v[start])
        invariant
            0 <= start <= len == v@.len(),
            trim_front(v@) == trim_front(v@.subrange(start as int, len as int)),
        decreases len - start,
    {
        proof {
            let sub = v@.subrange(start as int, len as int);
            assert(sub.drop_first() =~= v@.subrange(start as int + 1, len as int));
        }
        start = start + 1;
    }
    proof {
        assert(trim_front(v@) =~= v@.subrange(start as int, len as int));
    }
    let mut end: usize = len;
    while end > start && is_space_char(v[end - 1])
        invariant
            0 <= start <= end <= len == v@.len(),
            trim_back(v@.subrange(start as int, len as int)) == trim_back(
                v@.subrange(start as int, end as int),
            ),
        decreases end,
    {
        proof {
            let sub = v@.subrange(start as int, end as int);
            assert(sub.drop_last() =~= v@.subrange(start as int, end as int - 1));
        }
        end = end - 1;
    }
    proof {
        assert(trim_back(v@.subrange(start as int, len as int)) =~= v@.subrange(
            start as int,
            end as int,
        ));
    }
    subvec(v, start, end)
}

pub fn lower_char(c: char) -> (r: char)
    ensures
        r == to_lower(c),
{
    if 'A' <= c && c <= 'Z' {
        ((c as u8) + 32) as char
    } else {
        c
    }
}

/// ASCII-case-insensitive equality of two character vectors.
pub fn chars_eq_ignore_case(a: &Vec<char>, b: &Vec<char>) -> (r: bool)
    ensures
        r == eq_ignore_case(a@, b@),
{
    if a.len() != b.len() {
        return false;
    }
    let n: usize = a.len();
    let mut i: usize = 0;
    while i < n
        invariant
            0 <= i <= n == a@.len() == b@.len(),
            forall|k: int| 0 <= k < i ==> to_lower(a@[k]) == to_lower(b@[k]),
        decreases n - i,
    {
        if lower_char(a[i]) != lower_char(b[i]) {
            return false;
        }
        i = i + 1;
    }
    true
}

/// The value of a digit run never drops as more digits are appended.
proof fn lemma_dec_value_prefix(s: Seq<char>, i: int)
    requires
        0 <= i <= s.len(),
    ensures
        dec_value(s.subrange(0, i)) <= dec_value(s),
    decreases s.len() - i,
{
    if i < s.len() {
        lemma_dec_value_prefix(s, i + 1);
        let a = s.subrange(0, i);
        let b = s.subrange(0, i + 1);
        assert(b.drop_last() =~= a);
        assert(dec_value(b) == dec_value(a) * 10 + digit_val(b.last()));
    } else {
        assert(s.subrange(0, i) =~= s);
    }
}

pub fn is_digit_char(c: char) -> (r: bool)
    ensures
        r == is_digit(c),
{
    '0' <= c && c <= '9'
}

/// Parses a whole vector of characters as a decimal `u32`: every character
/// must be a digit, the run non-empty, and the value in range.
pub fn parse_u32_chars(v: &Vec<char>) -> (r: Option<u32>)
    ensures
        r == parse_u32_spec(v@),
{
    let n: usize = v.len();
    if n == 0 {
        return None;
    }
    let mut acc: u64 = 0;
    let mut i: usize = 0;
    while i < n
        invariant
            0 <= i <= n == v@.len(),
            n > 0,
            acc == dec_value(v@.subrange(0, i as int)),
            acc <= u32::MAX,
            forall|k: int| 0 <= k < i ==> is_digit(v@[k]),
        decreases n - i,
    {
        let c = v[i];
        if !is_digit_char(c) {
            return None;
        }
        let d: u64 = (c as u8 - 48) as u64;
        proof {
            let b = v@.subrange(0, i as int + 1);
            assert(b.drop_last() =~= v@.subrange(0, i as int));
            assert(dec_value(b) == acc * 10 + digit_val(c));
        }
        acc = acc * 10 + d;
        i = i + 1;
        if acc > u32::MAX as u64 {
            proof {
                lemma_dec_value_prefix(v@, i as int);
            }
            return None;
        }
    }
    proof {
        assert(v@.subrange(0, n as int) =~= v@);
    }
    Some(acc as u32)
}

/// Parses a whole vector of characters as a decimal `usize`.
pub fn parse_usize_chars(v: &Vec<char>) -> (r: Option<usize>)
    ensures
        r == parse_usize_spec(v@),
{
    let n: usize = v.len();
    if n == 0 {
        return None;
    }
    let mut acc: u128 = 0;
    let mut i: usize = 0;
    while i < n
        invariant
            0 <= i <= n == v@.len(),
            n > 0,
            acc == dec_value(v@.subrange(0, i as int)),
            acc <= usize::MAX,
            forall|k: int| 0 <= k < i ==> is_digit(v@[k]),
        decreases n - i,
    {
        let c = v[i];
        if !is_digit_char(c) {
            return None;
        }
        let d: u128 = (c as u8 - 48) as u128;
        proof {
            let b = v@.subrange(0, i as int + 1);
            assert(b.drop_last() =~= v@.subrange(0, i as int));
            assert(dec_value(b) == acc * 10 + digit_val(c));
        }
        acc = acc * 10 + d;
        i = i + 1;
        if acc > usize::MAX as u128 {
            proof {
                lemma_dec_value_prefix(v@, i as int);
            }
            return None;
        }
    }
    proof {
        assert(v@.subrange(0, n as int) =~= v@);
    }
    Some(acc as usize)
}

/// Splits `v` at commas, trims each token, parses it as a decimal `u32`,
/// and keeps the values that parse, in order.
pub fn parse_id_list(v: &Vec<char>) -> (r: Vec<u32>)
    ensures
        r@ == parse_ids_spec(v@),
{
    let n: usize = v.len();
    let mut out: Vec<u32> = Vec::new();
    let mut cur: Vec<char> = Vec::new();
    proof {
        assert(v@.subrange(0, n as int) =~= v@);
        assert(parse_ids_spec(v@) =~= Seq::<u32>::empty() + parse_ids_rec(v@, Seq::empty()));
    }
    let mut i: usize = 0;
    while i < n
        invariant
            0 <= i <= n == v@.len(),
            parse_ids_spec(v@) == out@ + parse_ids_rec(
                v@.subrange(i as int, n as int),
                cur@,
            ),
        decreases n - i,
    {
        let ghost rest = v@.subrange(i as int, n as int);
        let c = v[i];
        proof {
            assert(rest.drop_first() =~= v@.subrange(i as int + 1, n as int));
        }
        if c == ',' {
            let trimmed = trim_chars(&cur);
            match parse_u32_chars(&trimmed) {
                Some(id) => {
                    out.push(id);
                    proof {
                        assert(token_ids(cur@) =~= seq![id]);
                    }
                },
                None => {
                    proof {
                        assert(token_ids(cur@) =~= Seq::<u32>::empty());
                    }
                },
            }
            cur = Vec::new();
        } else {
            cur.push(c);
        }
        i = i + 1;
    }
    proof {
        assert(v@.subrange(n as int, n as int) =~= Seq::<char>::empty());
    }
    let trimmed = trim_chars(&cur);
    match parse_u32_chars(&trimmed) {
        Some(id) => {
            out.push(id);
            proof {
                assert(token_ids(cur@) =~= seq![id]);
            }
        },
        None => {
            proof {
                assert(token_ids(cur@) =~= Seq::<u32>::empty());
            }
        },
    }
    proof {
        assert(out@ =~= parse_ids_spec(v@));
    }
    out
}

/// Whether the sequence holds exactly one character, the given one.
pub fn is_single_char(v: &Vec<char>, c: char) -> (r: bool)
    ensures
        r == (v@ =~= seq![c]),
{
    if v.len() == 1 {
        let r = v[0] == c;
        proof {
            if v@[0] == c {
                assert(v@ =~= seq![c]);
            }
        }
        r
    } else {
        false
    }
}

} // verus!
