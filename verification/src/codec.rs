//! The wire format: one move per line, two whitespace-separated decimal
//! integers (source square, destination square), newline-terminated.
//!
//! `encode_move` produces the queued form `"<from> <to>"` (the line
//! terminator is appended at write time); `parse_line` recovers the pair
//! from a received line, tolerating surrounding whitespace, and rejects
//! malformed lines (wrong token count, non-numeric token, value out of
//! range) by returning `None`.

use vstd::prelude::*;

verus! {

use vstd::string::StrSliceExecFns;
use vstd::string::StringExecFns;

// ----- characters -----

/// The whitespace characters that line trimming and token splitting honor.
pub open spec fn is_ws_char(c: char) -> bool {
    c == ' ' || c == '\t' || c == '\r' || c == '\n'
}

/// Whether `c` is a decimal digit.
pub open spec fn is_digit_char(c: char) -> bool {
    c == '0' || c == '1' || c == '2' || c == '3' || c == '4' || c == '5' || c == '6' || c == '7'
        || c == '8' || c == '9'
}

/// The numeric value of a digit character (0 for a non-digit).
pub open spec fn digit_val(c: char) -> int {
    if c == '0' {
        0
    } else if c == '1' {
        1
    } else if c == '2' {
        2
    } else if c == '3' {
        3
    } else if c == '4' {
        4
    } else if c == '5' {
        5
    } else if c == '6' {
        6
    } else if c == '7' {
        7
    } else if c == '8' {
        8
    } else if c == '9' {
        9
    } else {
        0
    }
}

/// The digit character for a value in [0, 9] ('9' above that range).
pub open spec fn digit_char(d: int) -> char {
    if d == 0 {
        '0'
    } else if d == 1 {
        '1'
    } else if d == 2 {
        '2'
    } else if d == 3 {
        '3'
    } else if d == 4 {
        '4'
    } else if d == 5 {
        '5'
    } else if d == 6 {
        '6'
    } else if d == 7 {
        '7'
    } else if d == 8 {
        '8'
    } else {
        '9'
    }
}

/// A digit character is never whitespace, and encoding then decoding a
/// digit value is the identity.
pub proof fn lemma_digit_char_props(d: int)
    requires
        0 <= d <= 9,
    ensures
        is_digit_char(digit_char(d)),
        !is_ws_char(digit_char(d)),
        digit_val(digit_char(d)) == d,
{
}

// ----- decimal representation -----

/// The decimal digit string of a non-negative integer, most significant
/// digit first, without sign or leading zeros.
pub open spec fn dec_of(n: int) -> Seq<char>
    decreases n,
{
    if n < 10 {
        seq![digit_char(n)]
    } else {
        dec_of(n / 10).push(digit_char(n % 10))
    }
}

/// The value of a digit string read most significant digit first.
pub open spec fn digits_val(t: Seq<char>) -> int
    decreases t.len(),
{
    if t.len() == 0 {
        0
    } else {
        digits_val(t.drop_last()) * 10 + digit_val(t.last())
    }
}

/// A non-empty run of digit characters.
pub open spec fn is_digits(t: Seq<char>) -> bool {
    t.len() > 0 && forall|i: int| 0 <= i < t.len() ==> is_digit_char(t[i])
}

/// The decimal string of `n` is a digit run that reads back as `n`.
pub proof fn lemma_dec_of_val(n: int)
    requires
        0 <= n,
    ensures
        is_digits(dec_of(n)),
        digits_val(dec_of(n)) == n,
        dec_of(n).len() >= 1,
    decreases n,
{
    if n < 10 {
        lemma_digit_char_props(n);
        assert(dec_of(n) == seq![digit_char(n)]);
        assert(dec_of(n).drop_last() =~= Seq::<char>::empty());
        assert(digits_val(Seq::<char>::empty()) == 0);
        assert(digits_val(dec_of(n)) == digits_val(dec_of(n).drop_last()) * 10 + digit_val(
            dec_of(n).last(),
        ));
    } else {
        lemma_dec_of_val(n / 10);
        lemma_digit_char_props(n % 10);
        assert(dec_of(n).drop_last() =~= dec_of(n / 10));
        assert(digits_val(dec_of(n)) == (n / 10) * 10 + n % 10);
        vstd::arithmetic::div_mod::lemma_fundamental_div_mod(n, 10);
    }
}

/// The value of a digit string never decreases as more digits follow.
pub proof fn lemma_digits_val_nonneg(t: Seq<char>)
    ensures
        digits_val(t) >= 0,
    decreases t.len(),
{
    if t.len() > 0 {
        lemma_digits_val_nonneg(t.drop_last());
    }
}

/// Every prefix of a digit string reads as at most the whole string.
pub proof fn lemma_digits_val_prefix(t: Seq<char>, i: int)
    requires
        0 <= i <= t.len(),
    ensures
        digits_val(t.take(i)) <= digits_val(t),
    decreases t.len() - i,
{
    if i == t.len() {
        assert(t.take(i) =~= t);
    } else {
        lemma_digits_val_prefix(t, i + 1);
        lemma_digits_val_nonneg(t.take(i));
        assert(t.take(i + 1).drop_last() =~= t.take(i));
        assert(digits_val(t.take(i + 1)) == digits_val(t.take(i)) * 10 + digit_val(
            t.take(i + 1).last(),
        ));
    }
}

// ----- whitespace tokenization -----

/// Length of the maximal non-whitespace run at the front of `s`.
pub open spec fn token_len(s: Seq<char>) -> int
    decreases s.len(),
{
    if s.len() == 0 || is_ws_char(s[0]) {
        0
    } else {
        1 + token_len(s.drop_first())
    }
}

/// The front token never runs past the end of the string, is at least one
/// character when the string starts with a non-whitespace character, holds
/// no whitespace, and stops exactly at the first whitespace character.
pub proof fn lemma_token_len_bounds(s: Seq<char>)
    ensures
        0 <= token_len(s) <= s.len(),
        forall|i: int| 0 <= i < token_len(s) ==> !is_ws_char(s[i]),
        token_len(s) < s.len() ==> is_ws_char(s[token_len(s)]),
    decreases s.len(),
{
    if s.len() > 0 && !is_ws_char(s[0]) {
        lemma_token_len_bounds(s.drop_first());
        assert forall|i: int| 0 <= i < token_len(s) implies !is_ws_char(s[i]) by {
            if i > 0 {
                assert(!is_ws_char(s.drop_first()[i - 1]));
            }
        }
        if token_len(s) < s.len() {
            assert(is_ws_char(s.drop_first()[token_len(s) - 1]));
        }
    }
}

/// The front token is as long as any run of non-whitespace characters that
/// ends at the end of the string or at a whitespace character.
pub proof fn lemma_token_len_is(s: Seq<char>, k: int)
    requires
        0 <= k <= s.len(),
        forall|i: int| 0 <= i < k ==> !is_ws_char(s[i]),
        k == s.len() || is_ws_char(s[k]),
    ensures
        token_len(s) == k,
    decreases k,
{
    if k == 0 {
    } else {
        assert(!is_ws_char(s[0]));
        lemma_token_len_is(s.drop_first(), k - 1);
    }
}

/// The whitespace-separated tokens of `s`, in order.
pub open spec fn split_ws(s: Seq<char>) -> Seq<Seq<char>>
    decreases s.len(),
    via split_ws_decreases
{
    if s.len() == 0 {
        Seq::empty()
    } else if is_ws_char(s[0]) {
        split_ws(s.drop_first())
    } else {
        seq![s.take(token_len(s))] + split_ws(s.skip(token_len(s)))
    }
}

#[via_fn]
proof fn split_ws_decreases(s: Seq<char>) {
    lemma_token_len_bounds(s);
}

/// Leading whitespace does not change the token list.
pub proof fn lemma_split_ws_skip_ws(s: Seq<char>, i: int)
    requires
        0 <= i < s.len(),
        is_ws_char(s[i]),
    ensures
        split_ws(s.skip(i)) == split_ws(s.skip(i + 1)),
{
    assert(s.skip(i).drop_first() =~= s.skip(i + 1));
}

/// A string that starts with a non-whitespace run of length `k` (ended by
/// whitespace or the end of the string) splits into that run followed by
/// the tokens of the rest.
pub proof fn lemma_split_ws_token(s: Seq<char>, k: int)
    requires
        0 < k <= s.len(),
        forall|i: int| 0 <= i < k ==> !is_ws_char(s[i]),
        k == s.len() || is_ws_char(s[k]),
    ensures
        split_ws(s) == seq![s.take(k)] + split_ws(s.skip(k)),
{
    lemma_token_len_is(s, k);
}

// ----- trimming -----

/// `s` without its leading whitespace.
pub open spec fn trim_front(s: Seq<char>) -> Seq<char>
    decreases s.len(),
{
    if s.len() > 0 && is_ws_char(s[0]) {
        trim_front(s.drop_first())
    } else {
        s
    }
}

/// `s` without its trailing whitespace.
pub open spec fn trim_back(s: Seq<char>) -> Seq<char>
    decreases s.len(),
{
    if s.len() > 0 && is_ws_char(s.last()) {
        trim_back(s.drop_last())
    } else {
        s
    }
}

/// `s` without leading and trailing whitespace.
pub open spec fn trim_spec(s: Seq<char>) -> Seq<char> {
    trim_back(trim_front(s))
}

/// A message in queued form: non-empty, no whitespace at either end.
pub open spec fn is_clean(m: Seq<char>) -> bool {
    m.len() > 0 && trim_spec(m) == m
}

/// Dropping leading whitespace is the same as skipping past it.
pub proof fn lemma_trim_front_is(s: Seq<char>, i: int)
    requires
        0 <= i <= s.len(),
        forall|x: int| 0 <= x < i ==> is_ws_char(s[x]),
        i == s.len() || !is_ws_char(s[i]),
    ensures
        trim_front(s) == s.skip(i),
    decreases i,
{
    if i == 0 {
        assert(s.skip(0) =~= s);
    } else {
        lemma_trim_front_is(s.drop_first(), i - 1);
        assert(s.drop_first().skip(i - 1) =~= s.skip(i));
    }
}

/// Dropping trailing whitespace is the same as cutting at the last
/// non-whitespace character.
pub proof fn lemma_trim_back_is(s: Seq<char>, j: int)
    requires
        0 <= j <= s.len(),
        forall|x: int| j <= x < s.len() ==> is_ws_char(s[x]),
        j == 0 || !is_ws_char(s[j - 1]),
    ensures
        trim_back(s) == s.take(j),
    decreases s.len() - j,
{
    if j == s.len() {
        assert(s.take(j) =~= s);
    } else {
        lemma_trim_back_is(s.drop_last(), j);
        assert(s.drop_last().take(j) =~= s.take(j));
    }
}

/// A string that neither starts nor ends in whitespace trims to itself.
pub proof fn lemma_trim_noop(s: Seq<char>)
    requires
        s.len() > 0,
        !is_ws_char(s[0]),
        !is_ws_char(s.last()),
    ensures
        trim_spec(s) == s,
{
    lemma_trim_front_is(s, 0);
    assert(s.skip(0) =~= s);
    lemma_trim_back_is(s, s.len() as int);
    assert(s.take(s.len() as int) =~= s);
}

/// What is left after trimming starts with a non-whitespace character.
proof fn lemma_trim_front_first(s: Seq<char>)
    ensures
        trim_front(s).len() > 0 ==> !is_ws_char(trim_front(s)[0]),
    decreases s.len(),
{
    if s.len() > 0 && is_ws_char(s[0]) {
        lemma_trim_front_first(s.drop_first());
    }
}

/// Cutting trailing whitespace keeps the front character and leaves no
/// whitespace at the back.
proof fn lemma_trim_back_props(s: Seq<char>)
    ensures
        trim_back(s).len() > 0 ==> !is_ws_char(trim_back(s).last()),
        trim_back(s).len() > 0 ==> trim_back(s)[0] == s[0],
    decreases s.len(),
{
    if s.len() > 0 && is_ws_char(s.last()) {
        lemma_trim_back_props(s.drop_last());
    }
}

/// A non-empty trim result is a clean message: trimming is idempotent.
pub proof fn lemma_trim_clean(s: Seq<char>)
    requires
        trim_spec(s).len() > 0,
    ensures
        is_clean(trim_spec(s)),
{
    lemma_trim_front_first(s);
    lemma_trim_back_props(trim_front(s));
    lemma_trim_noop(trim_spec(s));
}

// ----- the move line format -----

/// The queued form of a move: `"<from> <to>"`, both in decimal.
pub open spec fn encode_move_spec(from: u8, to: u8) -> Seq<char> {
    dec_of(from as int) + seq![' '] + dec_of(to as int)
}

/// The wire form of a move: the queued form plus the line terminator.
pub open spec fn encode_line_spec(from: u8, to: u8) -> Seq<char> {
    encode_move_spec(from, to).push('\n')
}

/// The square index a digit token denotes, if it is one and fits in `u8`.
pub open spec fn token_u8(t: Seq<char>) -> Option<u8> {
    if is_digits(t) && digits_val(t) <= 255 {
        Some(digits_val(t) as u8)
    } else {
        None
    }
}

/// What a received line means: exactly two decimal tokens give a move;
/// anything else (wrong token count, a non-numeric token, a value that does
/// not fit) is malformed.
pub open spec fn parse_line_spec(s: Seq<char>) -> Option<(u8, u8)> {
    let toks = split_ws(s);
    if toks.len() == 2 {
        match (token_u8(toks[0]), token_u8(toks[1])) {
            (Some(a), Some(b)) => Some((a, b)),
            _ => None,
        }
    } else {
        None
    }
}

/// An encoded move splits into exactly its two digit tokens, with or
/// without the line terminator.
proof fn lemma_split_ws_encode(from: u8, to: u8, s: Seq<char>)
    requires
        s == encode_move_spec(from, to) || s == encode_line_spec(from, to),
    ensures
        split_ws(s) == seq![dec_of(from as int), dec_of(to as int)],
{
    let a = dec_of(from as int);
    let b = dec_of(to as int);
    lemma_dec_of_val(from as int);
    lemma_dec_of_val(to as int);
    let al = a.len() as int;
    let bl = b.len() as int;
    assert(s[al] == ' ');
    assert forall|i: int| 0 <= i < al implies !is_ws_char(s[i]) by {
        assert(s[i] == a[i]);
        assert(is_digit_char(a[i]));
    }
    lemma_split_ws_token(s, al);
    assert(s.take(al) =~= a);
    lemma_split_ws_skip_ws(s, al);
    let r = s.skip(al + 1);
    assert forall|i: int| 0 <= i < bl implies !is_ws_char(r[i]) by {
        assert(r[i] == b[i]);
        assert(is_digit_char(b[i]));
    }
    if s == encode_line_spec(from, to) {
        assert(r.len() == bl + 1);
        assert(is_ws_char(r[bl]));
        lemma_split_ws_token(r, bl);
        assert(r.take(bl) =~= b);
        lemma_split_ws_skip_ws(r, bl);
        assert(r.skip(bl + 1) =~= Seq::<char>::empty());
        assert(split_ws(r) =~= seq![b]);
    } else {
        assert(r =~= b);
        lemma_split_ws_token(r, bl);
        assert(r.take(bl) =~= b);
        assert(r.skip(bl) =~= Seq::<char>::empty());
        assert(split_ws(r) =~= seq![b]);
    }
    assert(split_ws(s) =~= seq![a, b]);
}

/// Round trip: every move pair serializes to a line that parses back to
/// the identical pair, both in queued form and in wire form.
pub proof fn lemma_move_round_trip(from: u8, to: u8)
    ensures
        parse_line_spec(encode_line_spec(from, to)) == Some((from, to)),
        parse_line_spec(encode_move_spec(from, to)) == Some((from, to)),
{
    lemma_dec_of_val(from as int);
    lemma_dec_of_val(to as int);
    lemma_split_ws_encode(from, to, encode_move_spec(from, to));
    lemma_split_ws_encode(from, to, encode_line_spec(from, to));
}

/// The queued form of a move is a clean message: the worker may transmit
/// it as a line of its own.
pub proof fn lemma_encode_move_clean(from: u8, to: u8)
    ensures
        is_clean(encode_move_spec(from, to)),
{
    let s = encode_move_spec(from, to);
    lemma_dec_of_val(from as int);
    lemma_dec_of_val(to as int);
    assert(s[0] == dec_of(from as int)[0]);
    assert(s.last() == dec_of(to as int).last());
    assert(is_digit_char(s[0]));
    assert(is_digit_char(s.last()));
    lemma_trim_noop(s);
}

// ----- executable character tests -----

/// Decides whitespace as the trimming and splitting specifications do.
fn is_ws(c: char) -> (r: bool)
    ensures
        r == is_ws_char(c),
{
    c == ' ' || c == '\t' || c == '\r' || c == '\n'
}

/// The value of a digit character, or `None` for any other character.
fn digit_of(c: char) -> (r: Option<u8>)
    ensures
        r is Some <==> is_digit_char(c),
        r matches Some(d) ==> d as int == digit_val(c) && d < 10,
{
    match c {
        '0' => Some(0),
        '1' => Some(1),
        '2' => Some(2),
        '3' => Some(3),
        '4' => Some(4),
        '5' => Some(5),
        '6' => Some(6),
        '7' => Some(7),
        '8' => Some(8),
        '9' => Some(9),
        _ => None,
    }
}

/// The one-character string for a digit value.
fn digit_str(d: u8) -> (r: &'static str)
    requires
        d < 10,
    ensures
        r@ == seq![digit_char(d as int)],
{
    proof {
        reveal_strlit("0");
        reveal_strlit("1");
        reveal_strlit("2");
        reveal_strlit("3");
        reveal_strlit("4");
        reveal_strlit("5");
        reveal_strlit("6");
        reveal_strlit("7");
        reveal_strlit("8");
        reveal_strlit("9");
        assert("0"@ =~= seq!['0']);
        assert("1"@ =~= seq!['1']);
        assert("2"@ =~= seq!['2']);
        assert("3"@ =~= seq!['3']);
        assert("4"@ =~= seq!['4']);
        assert("5"@ =~= seq!['5']);
        assert("6"@ =~= seq!['6']);
        assert("7"@ =~= seq!['7']);
        assert("8"@ =~= seq!['8']);
        assert("9"@ =~= seq!['9']);
    }
    match d {
        0 => "0",
        1 => "1",
        2 => "2",
        3 => "3",
        4 => "4",
        5 => "5",
        6 => "6",
        7 => "7",
        8 => "8",
        _ => "9",
    }
}

/// Appends the decimal digits of `n` to `out`.
fn append_dec(out: &mut String, n: u8)
    ensures
        final(out)@ == old(out)@ + dec_of(n as int),
    decreases n,
{
    if n >= 10 {
        append_dec(out, n / 10);
    }
    out.append(digit_str(n % 10));
    proof {
        if n < 10 {
            assert(final(out)@ =~= old(out)@ + dec_of(n as int));
        } else {
            assert(dec_of(n as int) == dec_of(n as int / 10).push(digit_char(n as int % 10)));
            assert(final(out)@ =~= old(out)@ + dec_of(n as int));
        }
    }
}

// ----- executable encoding -----

/// Serializes a move into its queued form `"<from> <to>"`.
pub fn encode_move(from: u8, to: u8) -> (r: String)
    ensures
        r@ == encode_move_spec(from, to),
{
    let mut out = String::new();
    append_dec(&mut out, from);
    out.append(" ");
    append_dec(&mut out, to);
    proof {
        reveal_strlit(" ");
        assert(" "@ =~= seq![' ']);
        assert(out@ =~= encode_move_spec(from, to));
    }
    out
}

/// Serializes a move into its wire form `"<from> <to>\n"`.
pub fn encode_line(from: u8, to: u8) -> (r: String)
    ensures
        r@ == encode_line_spec(from, to),
{
    let mut out = encode_move(from, to);
    out.append("\n");
    proof {
        reveal_strlit("\n");
        assert("\n"@ =~= seq!['\n']);
        assert(out@ =~= encode_line_spec(from, to));
    }
    out
}

// ----- executable parsing -----

/// Finds the next whitespace-separated token at or after index `from`, as
/// the index range `[a, b)` of its characters.
fn next_token(line: &str, from: usize) -> (r: Option<(usize, usize)>)
    requires
        from as int <= line@.len(),
    ensures
        match r {
            None => split_ws(line@.skip(from as int)) == Seq::<Seq<char>>::empty(),
            Some((a, b)) => from <= a && a < b && b as int <= line@.len() && split_ws(
                line@.skip(from as int),
            ) == seq![line@.subrange(a as int, b as int)] + split_ws(line@.skip(b as int)),
        },
{
    let n = line.unicode_len();
    let mut i = from;
    while i < n && is_ws(line.get_char(i))
        invariant
            from <= i <= n,
            n == line@.len(),
            split_ws(line@.skip(i as int)) == split_ws(line@.skip(from as int)),
        decreases n - i,
    {
        proof {
            lemma_split_ws_skip_ws(line@, i as int);
        }
        i = i + 1;
    }
    if i == n {
        proof {
            assert(line@.skip(i as int).len() == 0);
        }
        return None;
    }
    let a = i;
    while i < n && !is_ws(line.get_char(i))
        invariant
            a <= i <= n,
            n == line@.len(),
            forall|x: int| a <= x < i ==> !is_ws_char(line@[x]),
        decreases n - i,
    {
        i = i + 1;
    }
    let b = i;
    proof {
        assert(b > a);
        let t = line@.skip(a as int);
        assert forall|x: int| 0 <= x < b - a implies !is_ws_char(t[x]) by {
            assert(t[x] == line@[x + a]);
        }
        if (b as int) < line@.len() {
            assert(is_ws_char(t[b - a]));
        }
        lemma_split_ws_token(t, b - a);
        assert(t.take(b - a) =~= line@.subrange(a as int, b as int));
        assert(t.skip(b - a) =~= line@.skip(b as int));
    }
    Some((a, b))
}

/// Reads the digit token in the index range `[a, b)` as a square index.
fn parse_u8_range(line: &str, a: usize, b: usize) -> (r: Option<u8>)
    requires
        a < b,
        b as int <= line@.len(),
    ensures
        r == token_u8(line@.subrange(a as int, b as int)),
{
    let ghost t = line@.subrange(a as int, b as int);
    let mut i = a;
    let mut acc: u32 = 0;
    while i < b
        invariant
            a <= i <= b,
            b as int <= line@.len(),
            acc <= 255,
            t == line@.subrange(a as int, b as int),
            acc as int == digits_val(t.take(i - a)),
            forall|x: int| 0 <= x < i - a ==> is_digit_char(t[x]),
        decreases b - i,
    {
        let c = line.get_char(i);
        proof {
            assert(t[i - a] == line@[i as int]);
        }
        match digit_of(c) {
            None => {
                proof {
                    assert(!is_digit_char(t[i - a]));
                }
                return None;
            },
            Some(d) => {
                let acc2: u32 = acc * 10 + d as u32;
                proof {
                    assert(t.take(i - a + 1).drop_last() =~= t.take(i - a));
                    assert(digits_val(t.take(i - a + 1)) == acc as int * 10 + d as int);
                }
                if acc2 > 255 {
                    proof {
                        lemma_digits_val_prefix(t, i - a + 1);
                    }
                    return None;
                }
                acc = acc2;
            },
        }
        i = i + 1;
    }
    proof {
        assert(t.take((b - a) as int) =~= t);
    }
    Some(acc as u8)
}

/// Parses a received line as a move. Exactly two whitespace-separated
/// decimal tokens, each fitting a square index byte, give `Some`; any
/// malformed line gives `None`.
pub fn parse_line(line: &str) -> (r: Option<(u8, u8)>)
    ensures
        r == parse_line_spec(line@),
{
    proof {
        assert(line@.skip(0) =~= line@);
    }
    match next_token(line, 0) {
        None => None,
        Some((a1, b1)) => {
            let ghost t1 = line@.subrange(a1 as int, b1 as int);
            match next_token(line, b1) {
                None => {
                    proof {
                        assert(split_ws(line@) =~= seq![t1]);
                    }
                    None
                },
                Some((a2, b2)) => {
                    let ghost t2 = line@.subrange(a2 as int, b2 as int);
                    match next_token(line, b2) {
                        Some(c) => {
                            proof {
                                let rest = split_ws(line@.skip(b2 as int));
                                assert(rest.len() >= 1);
                                assert(split_ws(line@) =~= seq![t1, t2] + rest);
                            }
                            None
                        },
                        None => {
                            proof {
                                assert(split_ws(line@) =~= seq![t1, t2]);
                            }
                            let v1 = parse_u8_range(line, a1, b1);
                            let v2 = parse_u8_range(line, a2, b2);
                            match (v1, v2) {
                                (Some(x), Some(y)) => Some((x, y)),
                                _ => None,
                            }
                        },
                    }
                },
            }
        },
    }
}

/// Removes leading and trailing whitespace from a received line, giving
/// the queued form of its content.
pub fn trim_line(line: &str) -> (r: String)
    ensures
        r@ == trim_spec(line@),
{
    let n = line.unicode_len();
    let mut i: usize = 0;
    while i < n && is_ws(line.get_char(i))
        invariant
            0 <= i <= n,
            n == line@.len(),
            forall|x: int| 0 <= x < i ==> is_ws_char(line@[x]),
        decreases n - i,
    {
        i = i + 1;
    }
    proof {
        lemma_trim_front_is(line@, i as int);
    }
    if i == n {
        proof {
            assert(line@.skip(i as int).len() == 0);
            assert(trim_spec(line@) =~= Seq::<char>::empty());
        }
        return String::new();
    }
    let mut j: usize = n;
    while j > i && is_ws(line.get_char(j - 1))
        invariant
            i <= j <= n,
            n == line@.len(),
            forall|x: int| j <= x < n ==> is_ws_char(line@[x]),
        decreases j,
    {
        j = j - 1;
    }
    proof {
        assert(j > i);
        let f = line@.skip(i as int);
        assert forall|x: int| j - i <= x < f.len() implies is_ws_char(f[x]) by {
            assert(f[x] == line@[x + i]);
        }
        assert(f[j - i - 1] == line@[j - 1]);
        lemma_trim_back_is(f, j - i);
        assert(f.take(j - i) =~= line@.subrange(i as int, j as int));
    }
    let piece = line.substring_char(i, j);
    piece.to_owned()
}

} // verus!
