use vstd::prelude::*;
use vstd::string::*;

use crate::text::{
    chars_of, contains, find, find_exec, is_ws, opt_int, owned, parse_isize, parse_isize_exec,
    starts_with, starts_with_exec, string_of, trim_end_char, trim_end_char_str, trim_ws,
    trim_ws_str,
};

verus! {

broadcast use vstd::string::group_string_axioms;

/// `s` up to the first occurrence of `d`; all of `s` when `d` does not occur or occurs at the
/// very start.
pub open spec fn cut_at(s: Seq<char>, d: Seq<char>) -> Seq<char> {
    match find(s, d) {
        Some(k) => if k == 0 {
            s
        } else {
            s.take(k)
        },
        None => s,
    }
}

/// Cuts `s` at the first occurrence of `delimiters` (see `cut_at`).
pub fn trim(s: &str, delimiters: &str) -> (r: String)
    ensures
        r@ == cut_at(s@, delimiters@),
{
    let separator: usize = match find_exec(s, delimiters) {
        Some(a) => a,
        None => 0,
    };
    if separator == 0 {
        return owned(s);
    }
    proof {
        crate::text::lemma_find_from(s@, delimiters@, 0);
    }
    let cs = chars_of(s);
    string_of(&cs, 0, separator)
}

/// The key and value of a `key = value # comment` line: the key is the text before the first
/// `=` with surrounding whitespace removed, the value the text after it cut at the first `#`.
/// A line with no `=`, or with `=` as its first character, gives two empty strings.
pub open spec fn key_pair(s: Seq<char>) -> (Seq<char>, Seq<char>) {
    match find(s, seq!['=']) {
        Some(k) => if k == 0 {
            (seq![], seq![])
        } else {
            (trim_ws(s.take(k)), cut_at(s.skip(k + 1), seq!['#']))
        },
        None => (seq![], seq![]),
    }
}

/// Splits a settings line into its key and value (see `key_pair`).
pub fn get_key_pair(s: &str, key: &mut String, val: &mut String)
    ensures
        final(key)@ == key_pair(s@).0,
        final(val)@ == key_pair(s@).1,
{
    let separator: usize = match find_exec(s, "=") {
        Some(a) => a,
        None => 0,
    };
    proof {
        reveal_strlit("=");
        assert("="@ =~= seq!['=']);
    }
    if separator == 0 {
        *key = String::new();
        *val = String::new();
        return ;
    }
    proof {
        crate::text::lemma_find_from(s@, seq!['='], 0);
    }
    let cs = chars_of(s);
    assert(seq!['='].len() == 1);
    assert(separator + 1 <= cs.len());
    let k = string_of(&cs, 0, separator);
    let v = string_of(&cs, separator + 1, cs.len());
    assert(v@ =~= s@.skip(separator + 1));
    *key = trim_ws_str(k.as_str());
    proof {
        reveal_strlit("#");
        assert("#"@ =~= seq!['#']);
    }
    *val = trim(v.as_str(), "#");
}

/// The text between the opening character and the first `]`; empty when there is no `]` or
/// it comes first.
pub open spec fn section_title(s: Seq<char>) -> Seq<char> {
    match find(s, seq![']']) {
        Some(k) => if k == 0 {
            seq![]
        } else {
            s.subrange(1, k)
        },
        None => seq![],
    }
}

/// The title of a `[section]` line (see `section_title`).
pub fn get_section_title(s: &str) -> (r: String)
    requires
        // the text is cut at byte 1, which must end the first character when it is used
        find(s@, seq![']']) matches Some(k) && k != 0 ==> (s@[0] as u32) < 128,
    ensures
        r@ == section_title(s@),
{
    let bracket: usize = match find_exec(s, "]") {
        Some(a) => a,
        None => 0,
    };
    proof {
        reveal_strlit("]");
        assert("]"@ =~= seq![']']);
    }
    if bracket == 0 {
        return String::new();
    }
    proof {
        crate::text::lemma_find_from(s@, seq![']'], 0);
    }
    let cs = chars_of(s);
    string_of(&cs, 1, bracket)
}

/// Parses a decimal integer (`str::parse::<isize>`), which must be well formed.
pub fn to_int(s: &str) -> (r: isize)
    requires
        parse_isize(s@) is Some,
    ensures
        parse_isize(s@) == Some(r as int),
{
    match parse_isize_exec(s) {
        Some(v) => v,
        None => 0,
    }
}

/// `s` without trailing `\r` characters, then without trailing `\n` characters.
pub open spec fn stripped(s: Seq<char>) -> Seq<char> {
    trim_end_char(trim_end_char(s, '\r'), '\n')
}

/// Removes trailing carriage returns, then trailing line feeds.
pub fn strip_carriage_return(s: &str) -> (r: String)
    ensures
        r@ == stripped(s@),
{
    let t = trim_end_char_str(s, '\r');
    trim_end_char_str(t.as_str(), '\n')
}

/// The text that `pop_first_string` splits: trimmed, stripped of line ends, cut at `#`.
pub open spec fn cleaned(s: Seq<char>) -> Seq<char> {
    cut_at(stripped(trim_ws(s)), seq!['#'])
}

/// Index of the separator that `pop_first_string` splits at, or 0 for none: the first `,`,
/// unless a `;` comes earlier and after the start.
pub open spec fn separator_index(c: Seq<char>) -> int {
    let comma = match find(c, seq![',']) {
        Some(a) => a,
        None => 0,
    };
    let semi = match find(c, seq![';']) {
        Some(a) => a,
        None => 0,
    };
    if semi != 0 && semi < comma {
        semi
    } else {
        comma
    }
}

/// The first field of a `,`/`;` separated list and the rest of the list.
pub open spec fn first_field(s: Seq<char>) -> (Seq<char>, Seq<char>) {
    let c = cleaned(s);
    let p = separator_index(c);
    if p == 0 {
        (c, seq![])
    } else {
        (c.take(p), c.skip(p + 1))
    }
}

/// Takes the first field off a `,`/`;` separated list (see `first_field`).
pub fn pop_first_string(s: &str) -> (r: (String, String))
    ensures
        r.0@ == first_field(s@).0,
        r.1@ == first_field(s@).1,
{
    let t = trim_ws_str(s);
    let t = strip_carriage_return(t.as_str());
    proof {
        reveal_strlit("#");
        reveal_strlit(",");
        reveal_strlit(";");
        assert("#"@ =~= seq!['#']);
        assert(","@ =~= seq![',']);
        assert(";"@ =~= seq![';']);
    }
    let c = trim(t.as_str(), "#");
    let mut seppos: usize = match find_exec(c.as_str(), ",") {
        Some(a) => a,
        None => 0,
    };
    let alt_seppos: usize = match find_exec(c.as_str(), ";") {
        Some(a) => a,
        None => 0,
    };
    if alt_seppos != 0 && alt_seppos < seppos {
        seppos = alt_seppos;
    }
    proof {
        crate::text::lemma_find_from(c@, seq![','], 0);
        crate::text::lemma_find_from(c@, seq![';'], 0);
    }
    if seppos == 0 {
        (c, String::new())
    } else {
        let cs = chars_of(c.as_str());
        assert(seq![','].len() == 1 && seq![';'].len() == 1);
        assert(seppos + 1 <= cs.len());
        let outs = string_of(&cs, 0, seppos);
        let remains = string_of(&cs, seppos + 1, cs.len());
        assert(outs@ =~= c@.take(seppos as int));
        assert(remains@ =~= c@.skip(seppos + 1));
        (outs, remains)
    }
}

/// Takes the first field off a list and reads it as an integer; that field must be one.
pub fn pop_first_int(s: &str) -> (r: (isize, String))
    requires
        parse_isize(first_field(s@).0) is Some,
    ensures
        parse_isize(first_field(s@).0) == Some(r.0 as int),
        r.1@ == first_field(s@).1,
{
    let (outs, remains) = pop_first_string(s);
    (to_int(outs.as_str()), remains)
}

/// Whether a settings line carries nothing: it is empty or, once trimmed, starts with `#`.
pub open spec fn is_skipped(s: Seq<char>) -> bool {
    s.len() == 0 || starts_with(trim_ws(s), seq!['#'])
}

/// Whether a settings line is to be ignored (see `is_skipped`).
pub fn skip_line(s: &str) -> (b: bool)
    ensures
        b == is_skipped(s@),
{
    if s.unicode_len() == 0 {
        return true;
    }
    let t = trim_ws_str(s);
    proof {
        reveal_strlit("#");
        assert("#"@ =~= seq!['#']);
    }
    if starts_with_exec(t.as_str(), "#") {
        return true;
    }
    return false;
}


/// The key and value a settings line carries, if it carries one: a line that is skipped, or
/// whose value is empty, carries none.
pub open spec fn setting_entry(line: Seq<char>) -> Option<(Seq<char>, Seq<char>)> {
    if is_skipped(line) || key_pair(line).1.len() == 0 {
        None
    } else {
        Some(key_pair(line))
    }
}

/// Reads the key and value of a settings line (see `setting_entry`), as the loaders do.
pub fn read_setting(line: &str) -> (r: Option<(String, String)>)
    ensures
        match r {
            Some((k, v)) => setting_entry(line@) == Some((k@, v@)),
            None => setting_entry(line@) is None,
        },
{
    if skip_line(line) {
        return None;
    }
    let mut key = String::new();
    let mut val = String::new();
    get_key_pair(line, &mut key, &mut val);
    if val.unicode_len() == 0 {
        return None;
    }
    Some((key, val))
}

/// A non-negative integer as a `usize` (`ToPrimitive::to_usize` on `isize`).
pub fn isize_to_usize(x: isize) -> (r: Option<usize>)
    ensures
        r == (if x >= 0 {
            Some(x as usize)
        } else {
            None::<usize>
        }),
{
    if x >= 0 {
        Some(x as usize)
    } else {
        None
    }
}

}
