use vstd::prelude::*;
use vstd::std_specs::iter::IteratorSpec;
use vstd::string::*;

verus! {

broadcast use vstd::string::group_string_axioms;

// ---------------------------------------------------------------------
// Models of the text operations used throughout the library.
// ---------------------------------------------------------------------

/// Unicode `White_Space`, the set that `char::is_whitespace` tests.
pub open spec fn is_ws(c: char) -> bool {
    let u = c as u32;
    (9 <= u && u <= 13) || u == 32 || u == 0x85 || u == 0xa0 || u == 0x1680 || (0x2000 <= u
        && u <= 0x200a) || u == 0x2028 || u == 0x2029 || u == 0x202f || u == 0x205f || u == 0x3000
}

/// Whether `p` occurs in `s` starting at index `i`.
pub open spec fn matches_at(s: Seq<char>, p: Seq<char>, i: int) -> bool {
    0 <= i && i + p.len() <= s.len() && s.subrange(i, i + p.len()) == p
}

/// The first index at or after `i` where `p` occurs in `s`.
pub open spec fn find_from(s: Seq<char>, p: Seq<char>, i: int) -> Option<int>
    decreases s.len() - i,
{
    if i < 0 || i + p.len() > s.len() {
        None
    } else if matches_at(s, p, i) {
        Some(i)
    } else if i >= s.len() {
        None
    } else {
        find_from(s, p, i + 1)
    }
}

/// The first index where `p` occurs in `s` (what `str::find` gives, counted in characters).
pub open spec fn find(s: Seq<char>, p: Seq<char>) -> Option<int> {
    find_from(s, p, 0)
}

/// Whether `p` occurs anywhere in `s`.
pub open spec fn contains(s: Seq<char>, p: Seq<char>) -> bool {
    find(s, p) is Some
}

/// Whether `s` begins with `p`.
pub open spec fn starts_with(s: Seq<char>, p: Seq<char>) -> bool {
    matches_at(s, p, 0)
}

/// Index of the first non-whitespace character at or after `i`.
pub open spec fn skip_ws_from(s: Seq<char>, i: int) -> int
    decreases s.len() - i,
{
    if 0 <= i < s.len() && is_ws(s[i]) {
        skip_ws_from(s, i + 1)
    } else {
        i
    }
}

/// End of `s.take(j)` once trailing whitespace is removed.
pub open spec fn back_ws_to(s: Seq<char>, j: int) -> int
    decreases j,
{
    if 0 < j <= s.len() && is_ws(s[j - 1]) {
        back_ws_to(s, j - 1)
    } else {
        j
    }
}

/// `str::trim_start`.
pub open spec fn trim_start_ws(s: Seq<char>) -> Seq<char> {
    s.skip(skip_ws_from(s, 0))
}

/// `str::trim_end`.
pub open spec fn trim_end_ws(s: Seq<char>) -> Seq<char> {
    s.take(back_ws_to(s, s.len() as int))
}

/// `str::trim`.
pub open spec fn trim_ws(s: Seq<char>) -> Seq<char> {
    trim_end_ws(trim_start_ws(s))
}

/// End of `s.take(j)` once trailing copies of `c` are removed.
pub open spec fn back_char_to(s: Seq<char>, c: char, j: int) -> int
    decreases j,
{
    if 0 < j <= s.len() && s[j - 1] == c {
        back_char_to(s, c, j - 1)
    } else {
        j
    }
}

/// `str::trim_end_matches` with a one-character pattern.
pub open spec fn trim_end_char(s: Seq<char>, c: char) -> Seq<char> {
    s.take(back_char_to(s, c, s.len() as int))
}

/// Index after the leading repetitions of `p` that start at `i`.
pub open spec fn skip_prefix_from(s: Seq<char>, p: Seq<char>, i: int) -> int
    decreases s.len() - i,
{
    if p.len() > 0 && matches_at(s, p, i) {
        skip_prefix_from(s, p, i + p.len())
    } else {
        i
    }
}

/// `str::trim_start_matches` with a string pattern.
pub open spec fn trim_start_str(s: Seq<char>, p: Seq<char>) -> Seq<char> {
    s.skip(skip_prefix_from(s, p, 0))
}

/// The pieces of `s.skip(start)` separated by the non-empty pattern `p` (`str::split`).
pub open spec fn split_from(s: Seq<char>, p: Seq<char>, start: int) -> Seq<Seq<char>>
    decreases s.len() - start,
{
    if p.len() == 0 || start < 0 || start > s.len() {
        seq![]
    } else {
        match find_from(s, p, start) {
            Some(k) => {
                proof {
                    lemma_find_from(s, p, start);
                }
                seq![s.subrange(start, k)] + split_from(s, p, k + p.len())
            },
            None => seq![s.subrange(start, s.len() as int)],
        }
    }
}

/// `str::split` with a non-empty pattern.
pub open spec fn split(s: Seq<char>, p: Seq<char>) -> Seq<Seq<char>> {
    split_from(s, p, 0)
}

/// A line without its `\r` terminator, if it has one.
pub open spec fn strip_cr(line: Seq<char>) -> Seq<char> {
    if line.len() > 0 && line.last() == '\r' {
        line.drop_last()
    } else {
        line
    }
}

/// The lines of `s.skip(start)`, as `str::lines` yields them.
pub open spec fn lines_from(s: Seq<char>, start: int) -> Seq<Seq<char>>
    decreases s.len() - start,
{
    if start < 0 || start >= s.len() {
        seq![]
    } else {
        match find_from(s, seq!['\n'], start) {
            Some(k) => {
                proof {
                    lemma_find_from(s, seq!['\n'], start);
                }
                seq![strip_cr(s.subrange(start, k))] + lines_from(s, k + 1)
            },
            None => seq![s.subrange(start, s.len() as int)],
        }
    }
}

/// `str::lines`.
pub open spec fn lines(s: Seq<char>) -> Seq<Seq<char>> {
    lines_from(s, 0)
}

/// The views of a sequence of strings.
pub open spec fn views(v: Seq<String>) -> Seq<Seq<char>> {
    v.map_values(|x: String| x@)
}

/// An index found by an executable search, as an optional integer.
pub open spec fn opt_int(r: Option<usize>) -> Option<int> {
    match r {
        Some(i) => Some(i as int),
        None => None,
    }
}


/// The decimal digit character for `d` (`0 <= d < 10`).
pub open spec fn digit_char(d: int) -> char {
    (d + 48) as char
}

/// Whether `c` is an ASCII decimal digit.
pub open spec fn is_digit(c: char) -> bool {
    48 <= (c as u32) && (c as u32) <= 57
}

/// The value of an ASCII decimal digit.
pub open spec fn digit_value(c: char) -> int {
    (c as u32) - 48
}

/// Decimal rendering of a natural number, without leading zeros.
pub open spec fn nat_text(n: nat) -> Seq<char>
    decreases n,
{
    if n < 10 {
        seq![digit_char(n as int)]
    } else {
        nat_text(n / 10).push(digit_char((n % 10) as int))
    }
}

/// Decimal rendering of an integer, as `to_string` writes it.
pub open spec fn int_text(i: int) -> Seq<char> {
    if i < 0 {
        seq!['-'] + nat_text((-i) as nat)
    } else {
        nat_text(i as nat)
    }
}

/// Whether every character of `s` is a decimal digit.
pub open spec fn all_digits(s: Seq<char>) -> bool {
    forall|i: int| 0 <= i < s.len() ==> is_digit(#[trigger] s[i])
}

/// The number that a string of decimal digits spells.
pub open spec fn digits_value(s: Seq<char>) -> nat
    decreases s.len(),
{
    if s.len() == 0 {
        0
    } else {
        (digits_value(s.drop_last()) * 10 + digit_value(s.last())) as nat
    }
}

/// The integer written in `s`: an optional `+` or `-`, then one or more digits.
pub open spec fn decimal_value(s: Seq<char>) -> Option<int> {
    if s.len() > 0 && (s[0] == '+' || s[0] == '-') {
        let d = s.drop_first();
        if d.len() > 0 && all_digits(d) {
            Some(
                if s[0] == '-' {
                    -(digits_value(d) as int)
                } else {
                    digits_value(d) as int
                },
            )
        } else {
            None
        }
    } else if s.len() > 0 && all_digits(s) {
        Some(digits_value(s) as int)
    } else {
        None
    }
}

/// What `str::parse::<isize>` accepts, and the value it gives.
pub open spec fn parse_isize(s: Seq<char>) -> Option<int> {
    match decimal_value(s) {
        Some(v) => if isize::MIN <= v <= isize::MAX {
            Some(v)
        } else {
            None
        },
        None => None,
    }
}

/// What `str::parse::<u32>` accepts (no `-` sign), and the value it gives.
pub open spec fn parse_u32(s: Seq<char>) -> Option<int> {
    if s.len() > 0 && s[0] == '-' {
        None
    } else {
        match decimal_value(s) {
            Some(v) => if 0 <= v <= u32::MAX {
                Some(v)
            } else {
                None
            },
            None => None,
        }
    }
}

/// What `str::parse::<usize>` accepts (no `-` sign), and the value it gives.
pub open spec fn parse_usize(s: Seq<char>) -> Option<int> {
    if s.len() > 0 && s[0] == '-' {
        None
    } else {
        match decimal_value(s) {
            Some(v) => if 0 <= v <= usize::MAX {
                Some(v)
            } else {
                None
            },
            None => None,
        }
    }
}

/// What `str::parse::<i32>` accepts, and the value it gives.
pub open spec fn parse_i32(s: Seq<char>) -> Option<int> {
    match decimal_value(s) {
        Some(v) => if i32::MIN <= v <= i32::MAX {
            Some(v)
        } else {
            None
        },
        None => None,
    }
}

/// `t` before, between and after the characters of `s` (`str::replace` with an empty pattern).
pub open spec fn interleave(s: Seq<char>, t: Seq<char>) -> Seq<char>
    decreases s.len(),
{
    if s.len() == 0 {
        t
    } else {
        t + seq![s[0]] + interleave(s.drop_first(), t)
    }
}

/// `s.skip(start)` with each occurrence of the non-empty pattern `p` replaced by `t`.
pub open spec fn replace_from(s: Seq<char>, p: Seq<char>, t: Seq<char>, start: int) -> Seq<char>
    decreases s.len() - start,
{
    if p.len() == 0 || start < 0 || start > s.len() {
        seq![]
    } else {
        match find_from(s, p, start) {
            Some(k) => {
                proof {
                    lemma_find_from(s, p, start);
                }
                s.subrange(start, k) + t + replace_from(s, p, t, k + p.len())
            },
            None => s.subrange(start, s.len() as int),
        }
    }
}

/// `str::replace`.
pub open spec fn replace(s: Seq<char>, p: Seq<char>, t: Seq<char>) -> Seq<char> {
    if p.len() == 0 {
        interleave(s, t)
    } else {
        replace_from(s, p, t, 0)
    }
}

/// Piece `i` of a split, or `default` when there are not that many pieces (`Vec::get`).
pub open spec fn piece_or(pieces: Seq<Seq<char>>, i: int, default: Seq<char>) -> Seq<char> {
    if 0 <= i < pieces.len() {
        pieces[i]
    } else {
        default
    }
}

/// Word `i` of a command line split at single spaces, or `default`.
pub open spec fn word_or(line: Seq<char>, i: int, default: Seq<char>) -> Seq<char> {
    piece_or(split(line, seq![' ']), i, default)
}

// ---------------------------------------------------------------------
// Facts about the models.
// ---------------------------------------------------------------------

/// What a search from `i` finds: the first occurrence at or after `i`, or nothing.
pub proof fn lemma_find_from(s: Seq<char>, p: Seq<char>, i: int)
    requires
        0 <= i,
    ensures
        match find_from(s, p, i) {
            Some(k) => {
                &&& i <= k
                &&& matches_at(s, p, k)
                &&& forall|j: int| i <= j < k ==> !matches_at(s, p, j)
            },
            None => forall|j: int| i <= j ==> !matches_at(s, p, j),
        },
    decreases s.len() - i,
{
    if i + p.len() > s.len() {
    } else if matches_at(s, p, i) {
    } else if i >= s.len() {
    } else {
        lemma_find_from(s, p, i + 1);
    }
}


/// Splitting always gives at least one piece.
pub proof fn lemma_split_nonempty(s: Seq<char>, p: Seq<char>)
    requires
        p.len() > 0,
    ensures
        split(s, p).len() >= 1,
{
    match find_from(s, p, 0) {
        Some(k) => {
            assert(split(s, p) == seq![s.subrange(0, k)] + split_from(s, p, k + p.len()));
        },
        None => {},
    }
}

/// The pieces joined with `c` between them.
pub open spec fn join(pieces: Seq<Seq<char>>, c: char) -> Seq<char>
    decreases pieces.len(),
{
    if pieces.len() == 0 {
        seq![]
    } else if pieces.len() == 1 {
        pieces[0]
    } else {
        pieces[0] + seq![c] + join(pieces.drop_first(), c)
    }
}

/// Whether `s` holds no character `c`.
pub open spec fn lacks(s: Seq<char>, c: char) -> bool {
    forall|i: int| 0 <= i < s.len() ==> s[i] != c
}

/// A search in `pre + y` past `pre` finds what the same search in `y` finds, shifted.
pub proof fn lemma_find_shift(pre: Seq<char>, y: Seq<char>, p: Seq<char>, i: int)
    requires
        0 <= i,
    ensures
        find_from(pre + y, p, pre.len() + i) == match find_from(y, p, i) {
            Some(k) => Some(k + pre.len()),
            None => None::<int>,
        },
    decreases y.len() - i,
{
    let s = pre + y;
    if i + p.len() <= y.len() {
        assert(s.subrange(pre.len() + i, pre.len() + i + p.len()) =~= y.subrange(i, i + p.len()));
    }
    if i + p.len() > y.len() {
    } else if matches_at(y, p, i) {
    } else if i >= y.len() {
    } else {
        lemma_find_shift(pre, y, p, i + 1);
    }
}

/// Splitting `pre + y` past `pre` gives the pieces of `y`.
pub proof fn lemma_split_shift(pre: Seq<char>, y: Seq<char>, p: Seq<char>, j: int)
    requires
        p.len() > 0,
        0 <= j <= y.len(),
    ensures
        split_from(pre + y, p, pre.len() + j) == split_from(y, p, j),
    decreases y.len() - j,
{
    let s = pre + y;
    lemma_find_shift(pre, y, p, j);
    lemma_find_from(y, p, j);
    match find_from(y, p, j) {
        Some(k) => {
            assert(s.subrange(pre.len() + j, pre.len() + k) =~= y.subrange(j, k));
            lemma_split_shift(pre, y, p, k + p.len());
        },
        None => {
            assert(s.subrange(pre.len() + j, s.len() as int) =~= y.subrange(j, y.len() as int));
        },
    }
}

/// A text without `c` has no occurrence of `c`.
pub proof fn lemma_find_lacking(y: Seq<char>, c: char, i: int)
    requires
        lacks(y, c),
        0 <= i,
    ensures
        find_from(y, seq![c], i) is None,
    decreases y.len() - i,
{
    if i + 1 <= y.len() {
        if matches_at(y, seq![c], i) {
            assert(y.subrange(i, i + 1)[0] == y[i]);
        }
        lemma_find_lacking(y, c, i + 1);
    }
}

/// In `x`, `c`, `y` with `x` without `c`, the first `c` is the one after `x`.
pub proof fn lemma_find_after(x: Seq<char>, c: char, y: Seq<char>, i: int)
    requires
        lacks(x, c),
        0 <= i <= x.len(),
    ensures
        find_from(x + seq![c] + y, seq![c], i) == Some(x.len() as int),
    decreases x.len() - i,
{
    let s = x + seq![c] + y;
    if i == x.len() {
        assert(s.subrange(i, i + 1) =~= seq![c]);
    } else {
        if matches_at(s, seq![c], i) {
            assert(s.subrange(i, i + 1)[0] == s[i]);
            assert(s[i] == x[i]);
        }
        lemma_find_after(x, c, y, i + 1);
    }
}

/// Splitting at `c` undoes joining with `c`, when no piece holds `c`.
pub proof fn lemma_split_join(pieces: Seq<Seq<char>>, c: char)
    requires
        pieces.len() >= 1,
        forall|i: int| 0 <= i < pieces.len() ==> lacks(#[trigger] pieces[i], c),
    ensures
        split(join(pieces, c), seq![c]) == pieces,
    decreases pieces.len(),
{
    let s = join(pieces, c);
    if pieces.len() == 1 {
        lemma_find_lacking(pieces[0], c, 0);
        assert(s.subrange(0, s.len() as int) =~= pieces[0]);
        assert(split(s, seq![c]) =~= pieces);
    } else {
        let x = pieces[0];
        let rest = pieces.drop_first();
        assert(lacks(x, c));
        assert forall|i: int| 0 <= i < rest.len() implies lacks(#[trigger] rest[i], c) by {
            assert(rest[i] == pieces[i + 1]);
        }
        lemma_split_join(rest, c);
        lemma_find_after(x, c, join(rest, c), 0);
        assert(s == x + seq![c] + join(rest, c));
        assert(s.subrange(0, x.len() as int) =~= x);
        lemma_split_shift(x + seq![c], join(rest, c), seq![c], 0);
        assert(split(s, seq![c]) =~= seq![x] + rest);
        assert(seq![x] + rest =~= pieces);
    }
}

/// Every piece of a split at `c` (from `start`) is without `c`.
pub proof fn lemma_split_pieces_lack(s: Seq<char>, c: char, start: int)
    requires
        0 <= start,
    ensures
        forall|i: int|
            0 <= i < split_from(s, seq![c], start).len() ==> lacks(
                #[trigger] split_from(s, seq![c], start)[i],
                c,
            ),
    decreases s.len() - start,
{
    let p = seq![c];
    if start <= s.len() {
        lemma_find_from(s, p, start);
        match find_from(s, p, start) {
            Some(k) => {
                let piece = s.subrange(start, k);
                assert forall|j: int| 0 <= j < piece.len() implies piece[j] != c by {
                    assert(!matches_at(s, p, start + j));
                    if piece[j] == c {
                        assert(s.subrange(start + j, start + j + 1) =~= p);
                    }
                }
                lemma_split_pieces_lack(s, c, k + 1);
                let rest = split_from(s, p, k + 1);
                assert forall|i: int| 0 <= i < split_from(s, p, start).len() implies lacks(
                    #[trigger] split_from(s, p, start)[i],
                    c,
                ) by {
                    if i > 0 {
                        assert(split_from(s, p, start)[i] == rest[i - 1]);
                    }
                }
            },
            None => {
                let piece = s.subrange(start, s.len() as int);
                assert forall|j: int| 0 <= j < piece.len() implies piece[j] != c by {
                    assert(!matches_at(s, p, start + j));
                    if piece[j] == c {
                        assert(s.subrange(start + j, start + j + 1) =~= p);
                    }
                }
            },
        }
    }
}

/// A natural number's decimal text is a non-empty run of digits spelling it.
pub proof fn lemma_nat_text(n: nat)
    ensures
        nat_text(n).len() > 0,
        all_digits(nat_text(n)),
        digits_value(nat_text(n)) == n,
    decreases n,
{
    if n < 10 {
        let t = nat_text(n);
        assert(t.drop_last() =~= Seq::<char>::empty());
        assert((digit_char(n as int) as u32) == n + 48);
        assert(t.last() == digit_char(n as int));
        assert(digit_value(t.last()) == n);
        assert(digits_value(t.drop_last()) == 0);
        assert(digits_value(t) == (digits_value(t.drop_last()) * 10 + digit_value(t.last())) as nat);
    } else {
        lemma_nat_text(n / 10);
        let t = nat_text(n);
        assert(t.drop_last() =~= nat_text(n / 10));
        assert((digit_char((n % 10) as int) as u32) == n % 10 + 48);
        assert(n == (n / 10) * 10 + n % 10) by (nonlinear_arith);
        assert(t.last() == digit_char((n % 10) as int));
        assert(digit_value(t.last()) == n % 10);
        assert(digits_value(t) == (digits_value(t.drop_last()) * 10 + digit_value(t.last())) as nat);
        assert forall|i: int| 0 <= i < t.len() implies is_digit(#[trigger] t[i]) by {
            if i < t.len() - 1 {
                assert(t[i] == nat_text(n / 10)[i]);
            }
        }
    }
}

/// An integer's text is without spaces and `@`, and reads back as the integer.
pub proof fn lemma_int_text(i: int)
    ensures
        int_text(i).len() > 0,
        lacks(int_text(i), ' '),
        lacks(int_text(i), '@'),
        decimal_value(int_text(i)) == Some(i),
        i >= 0 ==> int_text(i)[0] != '-',
{
    let t = int_text(i);
    if i < 0 {
        let d = nat_text((-i) as nat);
        lemma_nat_text((-i) as nat);
        assert(t.drop_first() =~= d);
        assert forall|j: int| 0 <= j < t.len() implies t[j] != ' ' && t[j] != '@' by {
            if j > 0 {
                assert(t[j] == d[j - 1]);
                assert(is_digit(d[j - 1]));
            }
        }
    } else {
        lemma_nat_text(i as nat);
        assert(is_digit(t[0]));
        assert forall|j: int| 0 <= j < t.len() implies t[j] != ' ' && t[j] != '@' by {
            assert(is_digit(t[j]));
        }
    }
}

/// Numbers written by `to_string` are read back by `parse`.
pub proof fn lemma_parse_int_text(i: int)
    ensures
        i32::MIN <= i <= i32::MAX ==> parse_i32(int_text(i)) == Some(i),
        0 <= i <= u32::MAX ==> parse_u32(int_text(i)) == Some(i),
        0 <= i <= usize::MAX ==> parse_usize(int_text(i)) == Some(i),
        isize::MIN <= i <= isize::MAX ==> parse_isize(int_text(i)) == Some(i),
{
    lemma_int_text(i);
}

// ---------------------------------------------------------------------
// Executable text operations.
// ---------------------------------------------------------------------

/// Appends one character to a string (`String::push`).
#[verifier::external_body]
pub(crate) fn push_char(s: &mut String, c: char)
    ensures
        final(s)@ == old(s)@.push(c),
{
    s.push(c);
}

/// `char::is_whitespace`.
pub fn is_ws_char(c: char) -> (b: bool)
    ensures
        b == is_ws(c),
{
    let u = c as u32;
    (9 <= u && u <= 13) || u == 32 || u == 0x85 || u == 0xa0 || u == 0x1680 || (0x2000 <= u && u
        <= 0x200a) || u == 0x2028 || u == 0x2029 || u == 0x202f || u == 0x205f || u == 0x3000
}

/// The characters `cs[lo..hi]` as a string.
pub fn string_of(cs: &Vec<char>, lo: usize, hi: usize) -> (r: String)
    requires
        lo <= hi <= cs@.len(),
    ensures
        r@ == cs@.subrange(lo as int, hi as int),
{
    let mut r = String::new();
    let mut i = lo;
    while i < hi
        invariant
            lo <= i <= hi <= cs@.len(),
            r@ == cs@.subrange(lo as int, i as int),
        decreases hi - i,
    {
        push_char(&mut r, cs[i]);
        i += 1;
        assert(r@ =~= cs@.subrange(lo as int, i as int));
    }
    r
}

/// The characters of a string slice, in order.
pub fn chars_of(s: &str) -> (v: Vec<char>)
    ensures
        v@ == s@,
{
    let mut v: Vec<char> = Vec::new();
    for c in it: s.chars()
        invariant
            v@ == it.seq().take(it.index()),
    {
        v.push(c);
    }
    assert(v@ =~= s@);
    v
}

/// A copy of a string slice.
pub fn owned(s: &str) -> (r: String)
    ensures
        r@ == s@,
{
    let cs = chars_of(s);
    string_of(&cs, 0, cs.len())
}

/// Whether `p` occurs in `cs` at index `i`.
pub fn matches_at_exec(cs: &Vec<char>, p: &Vec<char>, i: usize) -> (b: bool)
    ensures
        b == matches_at(cs@, p@, i as int),
{
    if i > cs.len() || p.len() > cs.len() - i {
        return false;
    }
    let mut k: usize = 0;
    while k < p.len()
        invariant
            i + p@.len() <= cs.len(),
            k <= p@.len(),
            forall|m: int| 0 <= m < k ==> cs@[i + m] == p@[m],
        decreases p@.len() - k,
    {
        if cs[i + k] != p[k] {
            assert(cs@.subrange(i as int, i + p@.len())[k as int] != p@[k as int]);
            return false;
        }
        k += 1;
    }
    assert(cs@.subrange(i as int, i + p@.len()) =~= p@);
    true
}

/// The first index at or after `start` where `p` occurs in `cs`.
pub fn find_from_exec(cs: &Vec<char>, p: &Vec<char>, start: usize) -> (r: Option<usize>)
    ensures
        opt_int(r) == find_from(cs@, p@, start as int),
{
    let mut i = start;
    loop
        invariant
            start <= i,
            find_from(cs@, p@, start as int) == find_from(cs@, p@, i as int),
        decreases cs@.len() + 1 - i,
    {
        if i > cs.len() || p.len() > cs.len() - i {
            return None;
        }
        if matches_at_exec(cs, p, i) {
            return Some(i);
        }
        if i >= cs.len() {
            return None;
        }
        i += 1;
    }
}

/// The first index at or after `start` where the character `c` occurs in `cs`.
pub fn find_char_from(cs: &Vec<char>, c: char, start: usize) -> (r: Option<usize>)
    ensures
        opt_int(r) == find_from(cs@, seq![c], start as int),
{
    let ghost p = seq![c];
    assert(p.len() == 1 && p[0] == c);
    let mut i = start;
    loop
        invariant
            start <= i,
            p == seq![c],
            p.len() == 1,
            p[0] == c,
            find_from(cs@, p, start as int) == find_from(cs@, p, i as int),
        decreases cs@.len() + 1 - i,
    {
        if i >= cs.len() {
            assert(!matches_at(cs@, p, i as int));
            assert(find_from(cs@, p, i as int) == None::<int>);
            return None;
        }
        if cs[i] == c {
            assert(cs@.subrange(i as int, i + 1) =~= p);
            return Some(i);
        }
        assert(cs@.subrange(i as int, i + 1)[0] == cs@[i as int]);
        i += 1;
    }
}

/// Bounds of the text left once surrounding whitespace is removed.
pub fn trim_bounds(cs: &Vec<char>) -> (r: (usize, usize))
    ensures
        r.0 <= r.1 <= cs@.len(),
        cs@.subrange(r.0 as int, r.1 as int) == trim_ws(cs@),
{
    let ghost s = cs@;
    let mut lo: usize = 0;
    while lo < cs.len() && is_ws_char(cs[lo])
        invariant
            lo <= s.len(),
            s == cs@,
            skip_ws_from(s, 0) == skip_ws_from(s, lo as int),
        decreases s.len() - lo,
    {
        lo += 1;
    }
    let ghost t = s.skip(lo as int);
    let mut j: usize = cs.len() - lo;
    while j > 0 && is_ws_char(cs[lo + (j - 1)])
        invariant
            lo <= s.len(),
            s == cs@,
            t == s.skip(lo as int),
            j <= t.len(),
            lo + j <= cs.len(),
            back_ws_to(t, t.len() as int) == back_ws_to(t, j as int),
        decreases j,
    {
        assert(t[j - 1] == s[lo + j - 1]);
        j -= 1;
    }
    assert(j == 0 || !is_ws(t[j - 1]));
    assert(trim_start_ws(s) == t);
    assert(s.subrange(lo as int, lo + j) =~= t.take(j as int));
    (lo, lo + j)
}

/// `str::trim`, giving an owned string.
pub fn trim_ws_str(s: &str) -> (r: String)
    ensures
        r@ == trim_ws(s@),
{
    let cs = chars_of(s);
    let (lo, hi) = trim_bounds(&cs);
    string_of(&cs, lo, hi)
}


/// The pieces of `cs` separated by the non-empty pattern `p` (`str::split`).
pub fn split_exec(cs: &Vec<char>, p: &Vec<char>) -> (r: Vec<String>)
    requires
        p@.len() > 0,
    ensures
        views(r@) == split(cs@, p@),
{
    let mut r: Vec<String> = Vec::new();
    let mut start: usize = 0;
    loop
        invariant
            p@.len() > 0,
            start <= cs@.len(),
            views(r@) + split_from(cs@, p@, start as int) == split(cs@, p@),
        decreases cs@.len() - start,
    {
        let found = find_from_exec(cs, p, start);
        proof {
            lemma_find_from(cs@, p@, start as int);
        }
        match found {
            Some(k) => {
                let piece = string_of(cs, start, k);
                let ghost old_r = r@;
                r.push(piece);
                assert(views(r@) =~= views(old_r).push(piece@));
                assert(views(r@) + split_from(cs@, p@, k + p@.len()) =~= views(old_r)
                    + split_from(cs@, p@, start as int));
                assert(k + p@.len() <= cs.len());
                start = k + p.len();
            },
            None => {
                let piece = string_of(cs, start, cs.len());
                let ghost old_r = r@;
                r.push(piece);
                assert(views(r@) =~= views(old_r) + split_from(cs@, p@, start as int));
                return r;
            },
        }
    }
}

/// `str::split` on a string slice with a non-empty pattern.
pub fn split_str(s: &str, p: &str) -> (r: Vec<String>)
    requires
        p@.len() > 0,
    ensures
        views(r@) == split(s@, p@),
{
    let cs = chars_of(s);
    let ps = chars_of(p);
    split_exec(&cs, &ps)
}

/// `str::lines` on a character vector.
pub fn lines_exec(cs: &Vec<char>) -> (r: Vec<String>)
    ensures
        views(r@) == lines(cs@),
{
    let mut r: Vec<String> = Vec::new();
    let mut start: usize = 0;
    loop
        invariant
            start <= cs@.len(),
            views(r@) + lines_from(cs@, start as int) == lines(cs@),
        decreases cs@.len() - start,
    {
        if start >= cs.len() {
            assert(views(r@) =~= views(r@) + lines_from(cs@, start as int));
            return r;
        }
        let found = find_char_from(cs, '\n', start);
        proof {
            lemma_find_from(cs@, seq!['\n'], start as int);
        }
        match found {
            Some(k) => {
                let mut end = k;
                if end > start && cs[end - 1] == '\r' {
                    end = end - 1;
                }
                let piece = string_of(cs, start, end);
                assert(piece@ =~= strip_cr(cs@.subrange(start as int, k as int)));
                let ghost old_r = r@;
                r.push(piece);
                assert(views(r@) =~= views(old_r).push(piece@));
                assert(views(r@) + lines_from(cs@, k + 1) =~= views(old_r) + lines_from(
                    cs@,
                    start as int,
                ));
                start = k + 1;
            },
            None => {
                let piece = string_of(cs, start, cs.len());
                let ghost old_r = r@;
                r.push(piece);
                assert(views(r@) =~= views(old_r) + lines_from(cs@, start as int));
                return r;
            },
        }
    }
}

/// `str::lines` on a string slice.
pub fn lines_str(s: &str) -> (r: Vec<String>)
    ensures
        views(r@) == lines(s@),
{
    let cs = chars_of(s);
    lines_exec(&cs)
}


/// The decimal digit character for `d`.
pub fn digit_char_exec(d: u64) -> (c: char)
    requires
        d < 10,
    ensures
        c == digit_char(d as int),
{
    let b: u8 = (d as u8) + 48;
    let c = b as char;
    assert(c == digit_char(d as int)) by {
        assert((b as char) as u32 == b as u32);
    }
    c
}

/// Appends the decimal rendering of `n`.
pub fn push_nat_text(out: &mut String, n: u64)
    ensures
        final(out)@ == old(out)@ + nat_text(n as nat),
    decreases n,
{
    if n >= 10 {
        push_nat_text(out, n / 10);
    }
    let c = digit_char_exec(n % 10);
    push_char(out, c);
    proof {
        if n >= 10 {
            assert(nat_text(n as nat) == nat_text((n / 10) as nat).push(digit_char((n % 10) as int)));
        }
    }
    assert(final(out)@ =~= old(out)@ + nat_text(n as nat));
}

/// `u64::to_string`.
pub fn u64_text(n: u64) -> (r: String)
    ensures
        r@ == int_text(n as int),
{
    let mut r = String::new();
    push_nat_text(&mut r, n);
    assert(r@ =~= nat_text(n as nat));
    r
}

/// `i64::to_string`.
pub fn i64_text(n: i64) -> (r: String)
    ensures
        r@ == int_text(n as int),
{
    let mut r = String::new();
    if n < 0 {
        push_char(&mut r, '-');
        let m: u64 = (-(n as i128)) as u64;
        push_nat_text(&mut r, m);
        assert(r@ =~= seq!['-'] + nat_text((-n) as nat));
    } else {
        push_nat_text(&mut r, n as u64);
        assert(r@ =~= nat_text(n as nat));
    }
    r
}

/// A digit string's value never falls as more digits are read.
pub proof fn lemma_digits_value_prefix(s: Seq<char>, i: int, j: int)
    requires
        0 <= i <= j <= s.len(),
        all_digits(s),
    ensures
        digits_value(s.take(i)) <= digits_value(s.take(j)),
    decreases j - i,
{
    if i < j {
        lemma_digits_value_prefix(s, i, j - 1);
        assert(s.take(j).drop_last() =~= s.take(j - 1));
        assert(is_digit(s[j - 1]));
    }
}

/// The value of the digits `cs[lo..hi]` if it is at most `bound`.
pub fn digits_upto(cs: &Vec<char>, lo: usize, hi: usize, bound: u64) -> (r: Option<u64>)
    requires
        lo <= hi <= cs@.len(),
        all_digits(cs@.subrange(lo as int, hi as int)),
    ensures
        match r {
            Some(v) => v == digits_value(cs@.subrange(lo as int, hi as int)) && v <= bound,
            None => digits_value(cs@.subrange(lo as int, hi as int)) > bound,
        },
{
    let ghost d = cs@.subrange(lo as int, hi as int);
    let mut v: u64 = 0;
    let mut i = lo;
    assert(d.take(0) =~= seq![]);
    while i < hi
        invariant
            lo <= i <= hi <= cs@.len(),
            d == cs@.subrange(lo as int, hi as int),
            all_digits(d),
            v == digits_value(d.take(i - lo)),
            v <= bound,
        decreases hi - i,
    {
        let ghost k = i - lo;
        assert(d.take(k + 1).drop_last() =~= d.take(k));
        assert(d[k] == cs@[i as int]);
        assert(is_digit(d[k]));
        let dv: u64 = (cs[i] as u32 - 48) as u64;
        let nv: u128 = (v as u128) * 10 + (dv as u128);
        assert(digits_value(d.take(k + 1)) == v * 10 + dv);
        if nv > bound as u128 {
            proof {
                lemma_digits_value_prefix(d, k + 1, d.len() as int);
                assert(d.take(d.len() as int) =~= d);
            }
            return None;
        }
        v = nv as u64;
        i += 1;
    }
    assert(d.take(hi - lo) =~= d);
    Some(v)
}


/// Whether `cs[lo..hi]` are all decimal digits.
pub fn all_digits_exec(cs: &Vec<char>, lo: usize, hi: usize) -> (b: bool)
    requires
        lo <= hi <= cs@.len(),
    ensures
        b == all_digits(cs@.subrange(lo as int, hi as int)),
{
    let ghost d = cs@.subrange(lo as int, hi as int);
    let mut i = lo;
    while i < hi
        invariant
            lo <= i <= hi <= cs@.len(),
            d == cs@.subrange(lo as int, hi as int),
            forall|m: int| 0 <= m < i - lo ==> is_digit(#[trigger] d[m]),
        decreases hi - i,
    {
        let u = cs[i] as u32;
        if !(48 <= u && u <= 57) {
            assert(d[i - lo] == cs@[i as int]);
            return false;
        }
        assert(d[i - lo] == cs@[i as int]);
        i += 1;
    }
    true
}

/// Integer parsing with the syntax of `str::parse`: the value if it lies in `[-min_abs, max]`.
pub fn parse_in_range(cs: &Vec<char>, min_abs: u64, max: u64) -> (r: Option<i128>)
    ensures
        r == (match decimal_value(cs@) {
            Some(v) => if -(min_abs as int) <= v <= max {
                Some(v as i128)
            } else {
                None
            },
            None => None,
        }),
{
    let n = cs.len();
    if n == 0 {
        return None;
    }
    if cs[0] == '+' || cs[0] == '-' {
        let neg = cs[0] == '-';
        assert(cs@.drop_first() =~= cs@.subrange(1, n as int));
        if n == 1 || !all_digits_exec(cs, 1, n) {
            return None;
        }
        let bound = if neg {
            min_abs
        } else {
            max
        };
        match digits_upto(cs, 1, n, bound) {
            Some(v) => if neg {
                Some(-(v as i128))
            } else {
                Some(v as i128)
            },
            None => None,
        }
    } else {
        assert(cs@.subrange(0, n as int) =~= cs@);
        if !all_digits_exec(cs, 0, n) {
            return None;
        }
        match digits_upto(cs, 0, n, max) {
            Some(v) => Some(v as i128),
            None => None,
        }
    }
}

/// `str::parse::<isize>`, giving `None` where it gives an error.
pub fn parse_isize_exec(s: &str) -> (r: Option<isize>)
    ensures
        match r {
            Some(v) => parse_isize(s@) == Some(v as int),
            None => parse_isize(s@) is None,
        },
{
    let cs = chars_of(s);
    let min_abs: u64 = (-(isize::MIN as i128)) as u64;
    match parse_in_range(&cs, min_abs, isize::MAX as u64) {
        Some(v) => Some(v as isize),
        None => None,
    }
}

/// `str::parse::<u32>`, giving `None` where it gives an error.
pub fn parse_u32_exec(s: &str) -> (r: Option<u32>)
    ensures
        match r {
            Some(v) => parse_u32(s@) == Some(v as int),
            None => parse_u32(s@) is None,
        },
{
    let cs = chars_of(s);
    if cs.len() > 0 && cs[0] == '-' {
        return None;
    }
    match parse_in_range(&cs, 0, u32::MAX as u64) {
        Some(v) => Some(v as u32),
        None => None,
    }
}

/// `str::parse::<usize>`, giving `None` where it gives an error.
pub fn parse_usize_exec(s: &str) -> (r: Option<usize>)
    ensures
        match r {
            Some(v) => parse_usize(s@) == Some(v as int),
            None => parse_usize(s@) is None,
        },
{
    let cs = chars_of(s);
    if cs.len() > 0 && cs[0] == '-' {
        return None;
    }
    match parse_in_range(&cs, 0, usize::MAX as u64) {
        Some(v) => Some(v as usize),
        None => None,
    }
}

/// `str::parse::<i32>`, giving `None` where it gives an error.
pub fn parse_i32_exec(s: &str) -> (r: Option<i32>)
    ensures
        match r {
            Some(v) => parse_i32(s@) == Some(v as int),
            None => parse_i32(s@) is None,
        },
{
    let cs = chars_of(s);
    match parse_in_range(&cs, 2147483648, 2147483647) {
        Some(v) => Some(v as i32),
        None => None,
    }
}


/// `str::trim_end_matches` with a one-character pattern.
pub fn trim_end_char_str(s: &str, c: char) -> (r: String)
    ensures
        r@ == trim_end_char(s@, c),
{
    let cs = chars_of(s);
    let mut j = cs.len();
    while j > 0 && cs[j - 1] == c
        invariant
            j <= cs.len(),
            cs@ == s@,
            back_char_to(s@, c, s@.len() as int) == back_char_to(s@, c, j as int),
        decreases j,
    {
        j -= 1;
    }
    string_of(&cs, 0, j)
}

/// `str::trim_start_matches` with a string pattern.
pub fn trim_start_str_exec(s: &str, p: &str) -> (r: String)
    ensures
        r@ == trim_start_str(s@, p@),
{
    let cs = chars_of(s);
    let ps = chars_of(p);
    let mut i: usize = 0;
    if ps.len() > 0 {
        while matches_at_exec(&cs, &ps, i)
            invariant
                ps@.len() > 0,
                i <= cs.len(),
                cs@ == s@,
                ps@ == p@,
                skip_prefix_from(s@, p@, 0) == skip_prefix_from(s@, p@, i as int),
            decreases cs@.len() - i,
        {
            i = i + ps.len();
        }
    }
    string_of(&cs, i, cs.len())
}

/// `str::starts_with` with a string pattern.
pub fn starts_with_exec(s: &str, p: &str) -> (b: bool)
    ensures
        b == starts_with(s@, p@),
{
    let cs = chars_of(s);
    let ps = chars_of(p);
    matches_at_exec(&cs, &ps, 0)
}

/// `str::contains` with a string pattern.
pub fn contains_exec(s: &str, p: &str) -> (b: bool)
    ensures
        b == contains(s@, p@),
{
    let cs = chars_of(s);
    let ps = chars_of(p);
    find_from_exec(&cs, &ps, 0).is_some()
}

/// `str::find` with a string pattern, counted in characters.
pub fn find_exec(s: &str, p: &str) -> (r: Option<usize>)
    ensures
        opt_int(r) == find(s@, p@),
{
    let cs = chars_of(s);
    let ps = chars_of(p);
    find_from_exec(&cs, &ps, 0)
}

/// Whether two strings hold the same characters.
pub fn str_eq(a: &str, b: &str) -> (r: bool)
    ensures
        r == (a@ == b@),
{
    let ac = chars_of(a);
    let bc = chars_of(b);
    assert(ac@ == a@ && bc@ == b@);
    if ac.len() != bc.len() {
        return false;
    }
    let mut i: usize = 0;
    while i < ac.len()
        invariant
            ac@ == a@,
            bc@ == b@,
            ac@.len() == bc@.len(),
            i <= ac@.len(),
            forall|k: int| 0 <= k < i ==> ac@[k] == bc@[k],
        decreases ac@.len() - i,
    {
        if ac[i] != bc[i] {
            assert(ac@[i as int] != bc@[i as int]);
            assert(a@ != b@);
            return false;
        }
        i += 1;
    }
    assert(ac@ =~= bc@);
    true
}

/// ASCII lower case of one character (`char::to_ascii_lowercase`).
pub open spec fn lower_char(c: char) -> char {
    if 65 <= (c as u32) && (c as u32) <= 90 {
        ((c as u32) + 32) as char
    } else {
        c
    }
}

/// ASCII lower case of a string (`str::to_ascii_lowercase`).
pub open spec fn lower(s: Seq<char>) -> Seq<char> {
    s.map_values(|c: char| lower_char(c))
}

/// `str::to_ascii_lowercase`.
pub fn to_lower(s: &str) -> (r: String)
    ensures
        r@ == lower(s@),
{
    let cs = chars_of(s);
    let mut r = String::new();
    let mut i: usize = 0;
    while i < cs.len()
        invariant
            cs@ == s@,
            i <= cs@.len(),
            r@ == lower(s@).take(i as int),
        decreases cs@.len() - i,
    {
        let c = cs[i];
        let u = c as u32;
        let l = if 65 <= u && u <= 90 {
            let b: u8 = (u + 32) as u8;
            b as char
        } else {
            c
        };
        assert(l == lower_char(c)) by {
            if 65 <= u && u <= 90 {
                assert(((u + 32) as u8) as char as u32 == u + 32);
            }
        }
        push_char(&mut r, l);
        i += 1;
        assert(r@ =~= lower(s@).take(i as int));
    }
    assert(lower(s@).take(cs@.len() as int) =~= lower(s@));
    r
}


/// `str::replace`.
pub fn replace_exec(s: &str, p: &str, t: &str) -> (r: String)
    ensures
        r@ == replace(s@, p@, t@),
{
    let cs = chars_of(s);
    let ps = chars_of(p);
    let mut r = String::new();
    if ps.len() == 0 {
        let mut i: usize = 0;
        assert(cs@.skip(0) =~= cs@);
        assert(r@ + interleave(cs@.skip(0), t@) =~= interleave(s@, t@));
        while i < cs.len()
            invariant
                cs@ == s@,
                i <= cs@.len(),
                r@ + interleave(cs@.skip(i as int), t@) == interleave(s@, t@),
            decreases cs@.len() - i,
        {
            proof {
                assert(cs@.skip(i as int).drop_first() =~= cs@.skip(i + 1));
            }
            let ghost before = r@;
            r.append(t);
            push_char(&mut r, cs[i]);
            assert(r@ =~= before + t@ + seq![cs@[i as int]]);
            i += 1;
        }
        r.append(t);
        assert(cs@.skip(cs@.len() as int) =~= seq![]);
        return r;
    }
    let mut start: usize = 0;
    assert(r@ + replace_from(s@, p@, t@, 0) =~= replace_from(s@, p@, t@, 0));
    loop
        invariant
            cs@ == s@,
            ps@ == p@,
            p@.len() > 0,
            start <= cs@.len(),
            r@ + replace_from(s@, p@, t@, start as int) == replace(s@, p@, t@),
        decreases cs@.len() - start,
    {
        let found = find_from_exec(&cs, &ps, start);
        proof {
            lemma_find_from(s@, p@, start as int);
        }
        match found {
            Some(k) => {
                let piece = string_of(&cs, start, k);
                let ghost before = r@;
                r.append(piece.as_str());
                r.append(t);
                assert(r@ + replace_from(s@, p@, t@, k + p@.len()) =~= before + replace_from(
                    s@,
                    p@,
                    t@,
                    start as int,
                ));
                assert(k + p@.len() <= cs.len());
                start = k + ps.len();
            },
            None => {
                let piece = string_of(&cs, start, cs.len());
                let ghost before = r@;
                r.append(piece.as_str());
                assert(r@ =~= before + replace_from(s@, p@, t@, start as int));
                return r;
            },
        }
    }
}


/// Word `i` of a command line split at single spaces, or `default`.
pub fn word_or_exec(line: &str, i: usize, default: &str) -> (r: String)
    ensures
        r@ == word_or(line@, i as int, default@),
{
    proof {
        reveal_strlit(" ");
        assert(" "@ =~= seq![' ']);
    }
    let words = split_str(line, " ");
    if i < words.len() {
        assert(views(words@)[i as int] == words@[i as int]@);
        owned(words[i].as_str())
    } else {
        owned(default)
    }
}

}
