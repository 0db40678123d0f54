use vstd::prelude::*;
use vstd::string::*;


verus! {

broadcast use vstd::string::group_string_axioms;

/// Terminal colours used when decorating text for a client.
pub enum Color {
    RED,
    GREEN,
    YELLOW,
    DARKBLUE,
    PINK,
    BLUE,
    GRAY,
    WHITEBGRED,
}

/// The escape sequence that starts the given colour.
pub open spec fn color_code(color: Color) -> Seq<char> {
    match color {
        Color::RED => "\u{1b}[1;31m"@,
        Color::GREEN => "\u{1b}[1;32m"@,
        Color::YELLOW => "\u{1b}[1;33m"@,
        Color::DARKBLUE => "\u{1b}[1;34m"@,
        Color::PINK => "\u{1b}[1;35m"@,
        Color::BLUE => "\u{1b}[1;36m"@,
        Color::GRAY => "\u{1b}[1;38m"@,
        Color::WHITEBGRED => "\u{1b}[1;41m"@,
    }
}

/// The escape sequence that restores the default colour.
pub open spec fn color_reset() -> Seq<char> {
    "\u{1b}[0;00m"@
}

/// `content` wrapped in the escape sequences of `color`.
pub open spec fn colored(content: Seq<char>, color: Color) -> Seq<char> {
    color_code(color) + content + color_reset()
}

/// Wraps `content` in the escape sequences of `color`.
pub fn show_color(content: &str, color: Color) -> (r: String)
    ensures
        r@ == colored(content@, color),
{
    let code = match color {
        Color::RED => "\u{1b}[1;31m",
        Color::GREEN => "\u{1b}[1;32m",
        Color::YELLOW => "\u{1b}[1;33m",
        Color::DARKBLUE => "\u{1b}[1;34m",
        Color::PINK => "\u{1b}[1;35m",
        Color::BLUE => "\u{1b}[1;36m",
        Color::GRAY => "\u{1b}[1;38m",
        Color::WHITEBGRED => "\u{1b}[1;41m",
    };
    let mut r = String::from_str(code);
    r.append(content);
    r.append("\u{1b}[0;00m");
    r
}

/// The counter's value after one identifier is handed out: one more, wrapping to 0 after
/// `usize::MAX` (as `AtomicUsize::fetch_add` does).
pub open spec fn next_id(counter: usize) -> usize {
    if counter == usize::MAX {
        0
    } else {
        (counter + 1) as usize
    }
}

/// The counter's value after `k` identifiers have been handed out from `counter`; it is
/// also the identifier that the call after those `k` hands out.
pub open spec fn id_after(counter: usize, k: nat) -> usize
    decreases k,
{
    if k == 0 {
        counter
    } else {
        next_id(id_after(counter, (k - 1) as nat))
    }
}

/// Hands out the next identifier: the counter's value before the call, after which the
/// counter moves on by one (see `next_id`).
pub fn get_id(counter: &mut usize) -> (id: usize)
    ensures
        id == *old(counter),
        *final(counter) == next_id(*old(counter)),
{
    let id = *counter;
    *counter = counter.wrapping_add(1);
    id
}

/// The characters of `s` from index `start_idx` up to `end_idx`, or to the end of `s` if it is
/// shorter.
pub fn substring_range(utf8_str: &str, start_idx: usize, end_idx: usize) -> (r: &str)
    requires
        start_idx < utf8_str@.len(),
        start_idx < end_idx,
    ensures
        r@ == utf8_str@.subrange(
            start_idx as int,
            if end_idx < utf8_str@.len() {
                end_idx as int
            } else {
                utf8_str@.len() as int
            },
        ),
{
    let len = utf8_str.unicode_len();
    let end = if end_idx < len {
        end_idx
    } else {
        len
    };
    utf8_str.substring_char(start_idx, end)
}

/// The characters of `s` from index `start_idx` on.
pub fn substring_start(utf8_str: &str, start_idx: usize) -> (r: &str)
    requires
        start_idx < utf8_str@.len(),
    ensures
        r@ == utf8_str@.skip(start_idx as int),
{
    let len = utf8_str.unicode_len();
    utf8_str.substring_char(start_idx, len)
}

/// `s` cut into pieces of `n` characters, each followed by the two characters `\n`
/// (a backslash and the letter n), the last piece possibly shorter.
pub open spec fn wrapped_lines(s: Seq<char>, n: nat) -> Seq<char>
    decreases s.len(),
{
    if s.len() == 0 || n == 0 {
        seq![]
    } else if s.len() <= n {
        s + "\\n"@
    } else {
        s.take(n as int) + "\\n"@ + wrapped_lines(s.skip(n as int), n)
    }
}

/// Breaks `s` into lines of `num_per_line` characters for a client that reads `\n` escapes.
pub fn insert_line(utf8_str: &str, num_per_line: usize) -> (r: String)
    requires
        num_per_line > 0,
    ensures
        r@ == wrapped_lines(utf8_str@, num_per_line as nat),
{
    let ghost s = utf8_str@;
    let ghost n = num_per_line as nat;
    let len = utf8_str.unicode_len();
    let cnt = len / num_per_line;
    let mut i: usize = 0;
    let mut ret_str = String::new();
    let mut cur_start: usize = 0;
    assert(s.skip(0) =~= s);
    assert(ret_str@ + wrapped_lines(s.skip(0), n) =~= wrapped_lines(s, n));
    loop
        invariant
            s == utf8_str@,
            n == num_per_line,
            n > 0,
            len == s.len(),
            cnt == len / num_per_line,
            cur_start == num_per_line * i,
            cur_start <= len,
            i <= cnt + 1,
            ret_str@ + wrapped_lines(s.skip(cur_start as int), n) == wrapped_lines(s, n),
        decreases len - cur_start,
    {
        if i > cnt || cur_start >= len {
            proof {
                if cur_start < len {
                    assert(num_per_line * i >= num_per_line * (cnt + 1)) by (nonlinear_arith)
                        requires
                            i > cnt,
                    ;
                    assert(num_per_line * (cnt + 1) > len) by (nonlinear_arith)
                        requires
                            cnt == len / num_per_line,
                            num_per_line > 0,
                    ;
                }
                assert(s.skip(cur_start as int).len() == 0);
                assert(ret_str@ =~= ret_str@ + wrapped_lines(s.skip(cur_start as int), n));
            }
            return ret_str;
        }
        assert(i <= num_per_line * i) by (nonlinear_arith)
            requires
                num_per_line >= 1,
        ;
        let cur_end = if len - cur_start <= num_per_line {
            len
        } else {
            cur_start + num_per_line
        };
        let result = substring_range(utf8_str, cur_start, cur_end);
        let ghost rest = s.skip(cur_start as int);
        proof {
            if rest.len() <= n {
                assert(result@ =~= rest);
                assert(s.skip(cur_end as int).len() == 0);
            } else {
                assert(result@ =~= rest.take(n as int));
                assert(rest.skip(n as int) =~= s.skip(cur_end as int));
            }
        }
        let ghost old_ret = ret_str@;
        ret_str.append(result);
        ret_str.append("\\n");
        assert(ret_str@ + wrapped_lines(s.skip(cur_end as int), n) =~= old_ret + wrapped_lines(
            rest,
            n,
        ));
        i = i + 1;
        proof {
            assert(num_per_line * i == num_per_line * (i - 1) + num_per_line) by (nonlinear_arith)
                requires
                    i >= 1,
            ;
            if cur_end == len {
                if len - cur_start < num_per_line {
                    assert(num_per_line * i > len);
                }
            }
        }
        if cur_end == len {
            proof {
                assert(s.skip(cur_end as int).len() == 0);
                assert(ret_str@ =~= ret_str@ + wrapped_lines(s.skip(cur_end as int), n));
            }
            return ret_str;
        }
        cur_start = cur_end;
    }
}

}
