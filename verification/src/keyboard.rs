use crate::error::{HarnessError, Result};
use crate::models::KeyModifier;
use crate::text::{contains_nul, decimal, decimal_string};
use std::path::PathBuf;
use vstd::prelude::*;
use vstd::string::*;

verus! {

/// ASCII lowercase of one character; every other character is unchanged.
pub open spec fn ascii_lower(c: char) -> char {
    if 'A' <= c <= 'Z' {
        ((c as u32) + 32) as char
    } else {
        c
    }
}

/// ASCII lowercase of a string.
pub open spec fn lower(s: Seq<char>) -> Seq<char> {
    Seq::new(s.len(), |i: int| ascii_lower(s[i]))
}

pub open spec fn is_ascii_digit(c: char) -> bool {
    '0' <= c <= '9'
}

pub open spec fn is_ascii_alphanumeric(c: char) -> bool {
    is_ascii_digit(c) || 'a' <= c <= 'z' || 'A' <= c <= 'Z'
}

pub open spec fn digit_value(c: char) -> int {
    (c as u32) - ('0' as u32)
}

/// The number of a function key as written after its `f`: `1` to `9`, `10`,
/// `11` or `12`, with no sign and no leading zero.
pub open spec fn function_number(r: Seq<char>) -> Option<int> {
    if r.len() == 1 && '1' <= r[0] <= '9' {
        Some(digit_value(r[0]))
    } else if r.len() == 2 && r[0] == '1' && '0' <= r[1] <= '2' {
        Some(10 + digit_value(r[1]))
    } else {
        None
    }
}

/// The keysym of a documented named key, given its lowercased name.
pub open spec fn named_keysym(v: Seq<char>) -> Option<Seq<char>> {
    if v == "enter"@ || v == "return"@ {
        Some("Return"@)
    } else if v == "escape"@ || v == "esc"@ {
        Some("Escape"@)
    } else if v == "tab"@ {
        Some("Tab"@)
    } else if v == "space"@ {
        Some("space"@)
    } else if v == "backspace"@ {
        Some("BackSpace"@)
    } else if v == "delete"@ {
        Some("Delete"@)
    } else if v == "insert"@ {
        Some("Insert"@)
    } else if v == "left"@ {
        Some("Left"@)
    } else if v == "right"@ {
        Some("Right"@)
    } else if v == "up"@ {
        Some("Up"@)
    } else if v == "down"@ {
        Some("Down"@)
    } else if v == "home"@ {
        Some("Home"@)
    } else if v == "end"@ {
        Some("End"@)
    } else if v == "page_up"@ || v == "pageup"@ {
        Some("Page_Up"@)
    } else if v == "page_down"@ || v == "pagedown"@ {
        Some("Page_Down"@)
    } else if v == "minus"@ {
        Some("minus"@)
    } else if v == "equal"@ {
        Some("equal"@)
    } else if v == "comma"@ {
        Some("comma"@)
    } else if v == "period"@ || v == "dot"@ {
        Some("period"@)
    } else if v == "slash"@ {
        Some("slash"@)
    } else if v == "semicolon"@ {
        Some("semicolon"@)
    } else if v == "apostrophe"@ {
        Some("apostrophe"@)
    } else if v == "bracket_left"@ {
        Some("bracketleft"@)
    } else if v == "bracket_right"@ {
        Some("bracketright"@)
    } else if v == "backslash"@ {
        Some("backslash"@)
    } else if v == "grave"@ {
        Some("grave"@)
    } else {
        None
    }
}

/// A function key `f1` to `f12` (lowercased), uppercased.
pub open spec fn function_keysym(v: Seq<char>) -> Option<Seq<char>> {
    if 2 <= v.len() <= 3 && v[0] == 'f' && function_number(v.subrange(1, v.len() as int)) is Some {
        Some(seq!['F'] + v.subrange(1, v.len() as int))
    } else {
        None
    }
}

/// The keysym `wtype -k` is given for a key name: a single ASCII letter or
/// digit in lowercase, a documented named key, or a function key; `None`
/// for anything else.
pub open spec fn spec_normalize_key(key: Seq<char>) -> Option<Seq<char>> {
    if key.len() == 1 && is_ascii_alphanumeric(key[0]) {
        Some(seq![ascii_lower(key[0])])
    } else if named_keysym(lower(key)) is Some {
        named_keysym(lower(key))
    } else {
        function_keysym(lower(key))
    }
}

/// Law: each documented key name, in any ASCII case, gives the keysym of
/// that same key (an arrow name its own arrow, `enter` and `return` the
/// Return key, and so on), so no name presses another key.
pub proof fn lemma_named_keys_press_themselves(key: Seq<char>)
    ensures
        lower(key) == seq!['e', 'n', 't', 'e', 'r'] ==> spec_normalize_key(key) == Some(seq!['R', 'e', 't', 'u', 'r', 'n']),
        lower(key) == seq!['r', 'e', 't', 'u', 'r', 'n'] ==> spec_normalize_key(key) == Some(seq!['R', 'e', 't', 'u', 'r', 'n']),
        lower(key) == seq!['e', 's', 'c', 'a', 'p', 'e'] ==> spec_normalize_key(key) == Some(seq!['E', 's', 'c', 'a', 'p', 'e']),
        lower(key) == seq!['e', 's', 'c'] ==> spec_normalize_key(key) == Some(seq!['E', 's', 'c', 'a', 'p', 'e']),
        lower(key) == seq!['t', 'a', 'b'] ==> spec_normalize_key(key) == Some(seq!['T', 'a', 'b']),
        lower(key) == seq!['s', 'p', 'a', 'c', 'e'] ==> spec_normalize_key(key) == Some(seq!['s', 'p', 'a', 'c', 'e']),
        lower(key) == seq!['b', 'a', 'c', 'k', 's', 'p', 'a', 'c', 'e'] ==> spec_normalize_key(key) == Some(seq!['B', 'a', 'c', 'k', 'S', 'p', 'a', 'c', 'e']),
        lower(key) == seq!['d', 'e', 'l', 'e', 't', 'e'] ==> spec_normalize_key(key) == Some(seq!['D', 'e', 'l', 'e', 't', 'e']),
        lower(key) == seq!['i', 'n', 's', 'e', 'r', 't'] ==> spec_normalize_key(key) == Some(seq!['I', 'n', 's', 'e', 'r', 't']),
        lower(key) == seq!['l', 'e', 'f', 't'] ==> spec_normalize_key(key) == Some(seq!['L', 'e', 'f', 't']),
        lower(key) == seq!['r', 'i', 'g', 'h', 't'] ==> spec_normalize_key(key) == Some(seq!['R', 'i', 'g', 'h', 't']),
        lower(key) == seq!['u', 'p'] ==> spec_normalize_key(key) == Some(seq!['U', 'p']),
        lower(key) == seq!['d', 'o', 'w', 'n'] ==> spec_normalize_key(key) == Some(seq!['D', 'o', 'w', 'n']),
        lower(key) == seq!['h', 'o', 'm', 'e'] ==> spec_normalize_key(key) == Some(seq!['H', 'o', 'm', 'e']),
        lower(key) == seq!['e', 'n', 'd'] ==> spec_normalize_key(key) == Some(seq!['E', 'n', 'd']),
        lower(key) == seq!['p', 'a', 'g', 'e', '_', 'u', 'p'] ==> spec_normalize_key(key) == Some(seq!['P', 'a', 'g', 'e', '_', 'U', 'p']),
        lower(key) == seq!['p', 'a', 'g', 'e', 'u', 'p'] ==> spec_normalize_key(key) == Some(seq!['P', 'a', 'g', 'e', '_', 'U', 'p']),
        lower(key) == seq!['p', 'a', 'g', 'e', '_', 'd', 'o', 'w', 'n'] ==> spec_normalize_key(key) == Some(seq!['P', 'a', 'g', 'e', '_', 'D', 'o', 'w', 'n']),
        lower(key) == seq!['p', 'a', 'g', 'e', 'd', 'o', 'w', 'n'] ==> spec_normalize_key(key) == Some(seq!['P', 'a', 'g', 'e', '_', 'D', 'o', 'w', 'n']),
        lower(key) == seq!['m', 'i', 'n', 'u', 's'] ==> spec_normalize_key(key) == Some(seq!['m', 'i', 'n', 'u', 's']),
        lower(key) == seq!['e', 'q', 'u', 'a', 'l'] ==> spec_normalize_key(key) == Some(seq!['e', 'q', 'u', 'a', 'l']),
        lower(key) == seq!['c', 'o', 'm', 'm', 'a'] ==> spec_normalize_key(key) == Some(seq!['c', 'o', 'm', 'm', 'a']),
        lower(key) == seq!['p', 'e', 'r', 'i', 'o', 'd'] ==> spec_normalize_key(key) == Some(seq!['p', 'e', 'r', 'i', 'o', 'd']),
        lower(key) == seq!['d', 'o', 't'] ==> spec_normalize_key(key) == Some(seq!['p', 'e', 'r', 'i', 'o', 'd']),
        lower(key) == seq!['s', 'l', 'a', 's', 'h'] ==> spec_normalize_key(key) == Some(seq!['s', 'l', 'a', 's', 'h']),
        lower(key) == seq!['s', 'e', 'm', 'i', 'c', 'o', 'l', 'o', 'n'] ==> spec_normalize_key(key) == Some(seq!['s', 'e', 'm', 'i', 'c', 'o', 'l', 'o', 'n']),
        lower(key) == seq!['a', 'p', 'o', 's', 't', 'r', 'o', 'p', 'h', 'e'] ==> spec_normalize_key(key) == Some(seq!['a', 'p', 'o', 's', 't', 'r', 'o', 'p', 'h', 'e']),
        lower(key) == seq!['b', 'r', 'a', 'c', 'k', 'e', 't', '_', 'l', 'e', 'f', 't'] ==> spec_normalize_key(key) == Some(seq!['b', 'r', 'a', 'c', 'k', 'e', 't', 'l', 'e', 'f', 't']),
        lower(key) == seq!['b', 'r', 'a', 'c', 'k', 'e', 't', '_', 'r', 'i', 'g', 'h', 't'] ==> spec_normalize_key(key) == Some(seq!['b', 'r', 'a', 'c', 'k', 'e', 't', 'r', 'i', 'g', 'h', 't']),
        lower(key) == seq!['b', 'a', 'c', 'k', 's', 'l', 'a', 's', 'h'] ==> spec_normalize_key(key) == Some(seq!['b', 'a', 'c', 'k', 's', 'l', 'a', 's', 'h']),
        lower(key) == seq!['g', 'r', 'a', 'v', 'e'] ==> spec_normalize_key(key) == Some(seq!['g', 'r', 'a', 'v', 'e']),
{
    reveal_strlit("BackSpace");
    reveal_strlit("Delete");
    reveal_strlit("Down");
    reveal_strlit("End");
    reveal_strlit("Escape");
    reveal_strlit("Home");
    reveal_strlit("Insert");
    reveal_strlit("Left");
    reveal_strlit("Page_Down");
    reveal_strlit("Page_Up");
    reveal_strlit("Return");
    reveal_strlit("Right");
    reveal_strlit("Tab");
    reveal_strlit("Up");
    reveal_strlit("apostrophe");
    reveal_strlit("backslash");
    reveal_strlit("backspace");
    reveal_strlit("bracket_left");
    reveal_strlit("bracket_right");
    reveal_strlit("bracketleft");
    reveal_strlit("bracketright");
    reveal_strlit("comma");
    reveal_strlit("delete");
    reveal_strlit("dot");
    reveal_strlit("down");
    reveal_strlit("end");
    reveal_strlit("enter");
    reveal_strlit("equal");
    reveal_strlit("esc");
    reveal_strlit("escape");
    reveal_strlit("grave");
    reveal_strlit("home");
    reveal_strlit("insert");
    reveal_strlit("left");
    reveal_strlit("minus");
    reveal_strlit("page_down");
    reveal_strlit("page_up");
    reveal_strlit("pagedown");
    reveal_strlit("pageup");
    reveal_strlit("period");
    reveal_strlit("return");
    reveal_strlit("right");
    reveal_strlit("semicolon");
    reveal_strlit("slash");
    reveal_strlit("space");
    reveal_strlit("tab");
    reveal_strlit("up");
    if lower(key) == seq!['e', 'n', 't', 'e', 'r'] {
        assert(seq!['e', 'n', 't', 'e', 'r'] =~= "enter"@);
        assert(seq!['R', 'e', 't', 'u', 'r', 'n'] =~= "Return"@);
    }
    if lower(key) == seq!['r', 'e', 't', 'u', 'r', 'n'] {
        assert(seq!['r', 'e', 't', 'u', 'r', 'n'] =~= "return"@);
        assert(seq!['R', 'e', 't', 'u', 'r', 'n'] =~= "Return"@);
    }
    if lower(key) == seq!['e', 's', 'c', 'a', 'p', 'e'] {
        assert(seq!['e', 's', 'c', 'a', 'p', 'e'] =~= "escape"@);
        assert(seq!['E', 's', 'c', 'a', 'p', 'e'] =~= "Escape"@);
    }
    if lower(key) == seq!['e', 's', 'c'] {
        assert(seq!['e', 's', 'c'] =~= "esc"@);
        assert(seq!['E', 's', 'c', 'a', 'p', 'e'] =~= "Escape"@);
    }
    if lower(key) == seq!['t', 'a', 'b'] {
        assert(seq!['t', 'a', 'b'] =~= "tab"@);
        assert(seq!['T', 'a', 'b'] =~= "Tab"@);
    }
    if lower(key) == seq!['s', 'p', 'a', 'c', 'e'] {
        assert(seq!['s', 'p', 'a', 'c', 'e'] =~= "space"@);
        assert(seq!['s', 'p', 'a', 'c', 'e'] =~= "space"@);
    }
    if lower(key) == seq!['b', 'a', 'c', 'k', 's', 'p', 'a', 'c', 'e'] {
        assert(seq!['b', 'a', 'c', 'k', 's', 'p', 'a', 'c', 'e'] =~= "backspace"@);
        assert(seq!['B', 'a', 'c', 'k', 'S', 'p', 'a', 'c', 'e'] =~= "BackSpace"@);
    }
    if lower(key) == seq!['d', 'e', 'l', 'e', 't', 'e'] {
        assert(seq!['d', 'e', 'l', 'e', 't', 'e'] =~= "delete"@);
        assert(seq!['D', 'e', 'l', 'e', 't', 'e'] =~= "Delete"@);
    }
    if lower(key) == seq!['i', 'n', 's', 'e', 'r', 't'] {
        assert(seq!['i', 'n', 's', 'e', 'r', 't'] =~= "insert"@);
        assert(seq!['I', 'n', 's', 'e', 'r', 't'] =~= "Insert"@);
    }
    if lower(key) == seq!['l', 'e', 'f', 't'] {
        assert(seq!['l', 'e', 'f', 't'] =~= "left"@);
        assert(seq!['L', 'e', 'f', 't'] =~= "Left"@);
    }
    if lower(key) == seq!['r', 'i', 'g', 'h', 't'] {
        assert(seq!['r', 'i', 'g', 'h', 't'] =~= "right"@);
        assert(seq!['R', 'i', 'g', 'h', 't'] =~= "Right"@);
    }
    if lower(key) == seq!['u', 'p'] {
        assert(seq!['u', 'p'] =~= "up"@);
        assert(seq!['U', 'p'] =~= "Up"@);
    }
    if lower(key) == seq!['d', 'o', 'w', 'n'] {
        assert(seq!['d', 'o', 'w', 'n'] =~= "down"@);
        assert(seq!['D', 'o', 'w', 'n'] =~= "Down"@);
    }
    if lower(key) == seq!['h', 'o', 'm', 'e'] {
        assert(seq!['h', 'o', 'm', 'e'] =~= "home"@);
        assert(seq!['H', 'o', 'm', 'e'] =~= "Home"@);
    }
    if lower(key) == seq!['e', 'n', 'd'] {
        assert(seq!['e', 'n', 'd'] =~= "end"@);
        assert(seq!['E', 'n', 'd'] =~= "End"@);
    }
    if lower(key) == seq!['p', 'a', 'g', 'e', '_', 'u', 'p'] {
        assert(seq!['p', 'a', 'g', 'e', '_', 'u', 'p'] =~= "page_up"@);
        assert(seq!['P', 'a', 'g', 'e', '_', 'U', 'p'] =~= "Page_Up"@);
    }
    if lower(key) == seq!['p', 'a', 'g', 'e', 'u', 'p'] {
        assert(seq!['p', 'a', 'g', 'e', 'u', 'p'] =~= "pageup"@);
        assert(seq!['P', 'a', 'g', 'e', '_', 'U', 'p'] =~= "Page_Up"@);
    }
    if lower(key) == seq!['p', 'a', 'g', 'e', '_', 'd', 'o', 'w', 'n'] {
        assert(seq!['p', 'a', 'g', 'e', '_', 'd', 'o', 'w', 'n'] =~= "page_down"@);
        assert(seq!['P', 'a', 'g', 'e', '_', 'D', 'o', 'w', 'n'] =~= "Page_Down"@);
    }
    if lower(key) == seq!['p', 'a', 'g', 'e', 'd', 'o', 'w', 'n'] {
        assert(seq!['p', 'a', 'g', 'e', 'd', 'o', 'w', 'n'] =~= "pagedown"@);
        assert(seq!['P', 'a', 'g', 'e', '_', 'D', 'o', 'w', 'n'] =~= "Page_Down"@);
    }
    if lower(key) == seq!['m', 'i', 'n', 'u', 's'] {
        assert(seq!['m', 'i', 'n', 'u', 's'] =~= "minus"@);
        assert(seq!['m', 'i', 'n', 'u', 's'] =~= "minus"@);
    }
    if lower(key) == seq!['e', 'q', 'u', 'a', 'l'] {
        assert(seq!['e', 'q', 'u', 'a', 'l'] =~= "equal"@);
        assert(seq!['e', 'q', 'u', 'a', 'l'] =~= "equal"@);
    }
    if lower(key) == seq!['c', 'o', 'm', 'm', 'a'] {
        assert(seq!['c', 'o', 'm', 'm', 'a'] =~= "comma"@);
        assert(seq!['c', 'o', 'm', 'm', 'a'] =~= "comma"@);
    }
    if lower(key) == seq!['p', 'e', 'r', 'i', 'o', 'd'] {
        assert(seq!['p', 'e', 'r', 'i', 'o', 'd'] =~= "period"@);
        assert(seq!['p', 'e', 'r', 'i', 'o', 'd'] =~= "period"@);
    }
    if lower(key) == seq!['d', 'o', 't'] {
        assert(seq!['d', 'o', 't'] =~= "dot"@);
        assert(seq!['p', 'e', 'r', 'i', 'o', 'd'] =~= "period"@);
    }
    if lower(key) == seq!['s', 'l', 'a', 's', 'h'] {
        assert(seq!['s', 'l', 'a', 's', 'h'] =~= "slash"@);
        assert(seq!['s', 'l', 'a', 's', 'h'] =~= "slash"@);
    }
    if lower(key) == seq!['s', 'e', 'm', 'i', 'c', 'o', 'l', 'o', 'n'] {
        assert(seq!['s', 'e', 'm', 'i', 'c', 'o', 'l', 'o', 'n'] =~= "semicolon"@);
        assert(seq!['s', 'e', 'm', 'i', 'c', 'o', 'l', 'o', 'n'] =~= "semicolon"@);
    }
    if lower(key) == seq!['a', 'p', 'o', 's', 't', 'r', 'o', 'p', 'h', 'e'] {
        assert(seq!['a', 'p', 'o', 's', 't', 'r', 'o', 'p', 'h', 'e'] =~= "apostrophe"@);
        assert(seq!['a', 'p', 'o', 's', 't', 'r', 'o', 'p', 'h', 'e'] =~= "apostrophe"@);
    }
    if lower(key) == seq!['b', 'r', 'a', 'c', 'k', 'e', 't', '_', 'l', 'e', 'f', 't'] {
        assert(seq!['b', 'r', 'a', 'c', 'k', 'e', 't', '_', 'l', 'e', 'f', 't'] =~= "bracket_left"@);
        assert(seq!['b', 'r', 'a', 'c', 'k', 'e', 't', 'l', 'e', 'f', 't'] =~= "bracketleft"@);
    }
    if lower(key) == seq!['b', 'r', 'a', 'c', 'k', 'e', 't', '_', 'r', 'i', 'g', 'h', 't'] {
        assert(seq!['b', 'r', 'a', 'c', 'k', 'e', 't', '_', 'r', 'i', 'g', 'h', 't'] =~= "bracket_right"@);
        assert(seq!['b', 'r', 'a', 'c', 'k', 'e', 't', 'r', 'i', 'g', 'h', 't'] =~= "bracketright"@);
    }
    if lower(key) == seq!['b', 'a', 'c', 'k', 's', 'l', 'a', 's', 'h'] {
        assert(seq!['b', 'a', 'c', 'k', 's', 'l', 'a', 's', 'h'] =~= "backslash"@);
        assert(seq!['b', 'a', 'c', 'k', 's', 'l', 'a', 's', 'h'] =~= "backslash"@);
    }
    if lower(key) == seq!['g', 'r', 'a', 'v', 'e'] {
        assert(seq!['g', 'r', 'a', 'v', 'e'] =~= "grave"@);
        assert(seq!['g', 'r', 'a', 'v', 'e'] =~= "grave"@);
    }
}

/// Law: a function key keeps its number: `f1` to `f12`, in either case,
/// give `F1` to `F12`; `f0`, `f13` and above, or a number with a sign or a
/// leading zero, are refused. A single ASCII letter gives its lowercase
/// letter and a single digit itself.
pub proof fn lemma_function_keys_keep_their_number(key: Seq<char>, c: char, d: char)
    ensures
        '1' <= c <= '9' && lower(key) == seq!['f', c] ==> spec_normalize_key(key) == Some(
            seq!['F', c],
        ),
        '0' <= d <= '2' && lower(key) == seq!['f', '1', d] ==> spec_normalize_key(key) == Some(
            seq!['F', '1', d],
        ),
        '3' <= d <= '9' && lower(key) == seq!['f', '1', d] ==> spec_normalize_key(key) is None,
        lower(key) == seq!['f', '0'] ==> spec_normalize_key(key) is None,
        (c == '0' || c == '+' || c == '-') && lower(key) == seq!['f', c, d]
            ==> spec_normalize_key(key) is None,
        key == seq![c] && 'A' <= c <= 'Z' ==> spec_normalize_key(key) == Some(
            seq![((c as u32) + 32) as char],
        ),
        key == seq![c] && (('a' <= c <= 'z') || ('0' <= c <= '9')) ==> spec_normalize_key(key)
            == Some(key),
{
    let v = lower(key);
    if (v.len() == 2 || v.len() == 3) && v[0] == 'f' {
        lemma_short_names_are_not_named(v);
        assert(v.subrange(1, v.len() as int).len() == v.len() - 1);
        if v.len() == 2 {
            assert(v.subrange(1, 2)[0] == v[1]);
            assert(seq!['F'] + v.subrange(1, 2) =~= seq!['F', v[1]]);
        } else {
            assert(v.subrange(1, 3)[0] == v[1]);
            assert(v.subrange(1, 3)[1] == v[2]);
            assert(seq!['F'] + v.subrange(1, 3) =~= seq!['F', v[1], v[2]]);
        }
    }
}

proof fn lemma_short_names_are_not_named(v: Seq<char>)
    requires
        v.len() == 2 || v.len() == 3,
        v[0] == 'f',
    ensures
        named_keysym(v) is None,
{
    reveal_strlit("enter");
    reveal_strlit("return");
    reveal_strlit("escape");
    reveal_strlit("esc");
    reveal_strlit("tab");
    reveal_strlit("space");
    reveal_strlit("backspace");
    reveal_strlit("delete");
    reveal_strlit("insert");
    reveal_strlit("left");
    reveal_strlit("right");
    reveal_strlit("up");
    reveal_strlit("down");
    reveal_strlit("home");
    reveal_strlit("end");
    reveal_strlit("page_up");
    reveal_strlit("pageup");
    reveal_strlit("page_down");
    reveal_strlit("pagedown");
    reveal_strlit("minus");
    reveal_strlit("equal");
    reveal_strlit("comma");
    reveal_strlit("period");
    reveal_strlit("dot");
    reveal_strlit("slash");
    reveal_strlit("semicolon");
    reveal_strlit("apostrophe");
    reveal_strlit("bracket_left");
    reveal_strlit("bracket_right");
    reveal_strlit("backslash");
    reveal_strlit("grave");
}

fn ascii_lower_char(c: char) -> (r: char)
    ensures
        r == ascii_lower(c),
{
    if c >= 'A' && c <= 'Z' {
        ((c as u8) + 32) as char
    } else {
        c
    }
}

/// Whether the ASCII lowercase of `key` is `name`.
fn lower_eq(key: &str, name: &str) -> (r: bool)
    ensures
        r == (lower(key@) == name@),
{
    let n = key.unicode_len();
    if n != name.unicode_len() {
        return false;
    }
    let mut i: usize = 0;
    while i < n
        invariant
            n == key@.len(),
            n == name@.len(),
            i <= n,
            forall|j: int| 0 <= j < i ==> ascii_lower(key@[j]) == name@[j],
        decreases n - i,
    {
        if ascii_lower_char(key.get_char(i)) != name.get_char(i) {
            assert(lower(key@)[i as int] != name@[i as int]);
            return false;
        }
        i = i + 1;
    }
    assert(lower(key@) =~= name@);
    true
}

fn named_key(key: &str) -> (r: Option<&'static str>)
    ensures
        match r {
            Some(s) => named_keysym(lower(key@)) == Some(s@),
            None => named_keysym(lower(key@)) is None,
        },
{
    if lower_eq(key, "enter") || lower_eq(key, "return") {
        return Some("Return");
    }
    if lower_eq(key, "escape") || lower_eq(key, "esc") {
        return Some("Escape");
    }
    if lower_eq(key, "tab") {
        return Some("Tab");
    }
    if lower_eq(key, "space") {
        return Some("space");
    }
    if lower_eq(key, "backspace") {
        return Some("BackSpace");
    }
    if lower_eq(key, "delete") {
        return Some("Delete");
    }
    if lower_eq(key, "insert") {
        return Some("Insert");
    }
    if lower_eq(key, "left") {
        return Some("Left");
    }
    if lower_eq(key, "right") {
        return Some("Right");
    }
    if lower_eq(key, "up") {
        return Some("Up");
    }
    if lower_eq(key, "down") {
        return Some("Down");
    }
    if lower_eq(key, "home") {
        return Some("Home");
    }
    if lower_eq(key, "end") {
        return Some("End");
    }
    if lower_eq(key, "page_up") || lower_eq(key, "pageup") {
        return Some("Page_Up");
    }
    if lower_eq(key, "page_down") || lower_eq(key, "pagedown") {
        return Some("Page_Down");
    }
    if lower_eq(key, "minus") {
        return Some("minus");
    }
    if lower_eq(key, "equal") {
        return Some("equal");
    }
    if lower_eq(key, "comma") {
        return Some("comma");
    }
    if lower_eq(key, "period") || lower_eq(key, "dot") {
        return Some("period");
    }
    if lower_eq(key, "slash") {
        return Some("slash");
    }
    if lower_eq(key, "semicolon") {
        return Some("semicolon");
    }
    if lower_eq(key, "apostrophe") {
        return Some("apostrophe");
    }
    if lower_eq(key, "bracket_left") {
        return Some("bracketleft");
    }
    if lower_eq(key, "bracket_right") {
        return Some("bracketright");
    }
    if lower_eq(key, "backslash") {
        return Some("backslash");
    }
    if lower_eq(key, "grave") {
        return Some("grave");
    }
    None
}

/// The lowercase one-letter string of an uppercase ASCII letter.
fn lowercase_letter(c: char) -> (s: &'static str)
    requires
        'A' <= c <= 'Z',
    ensures
        s@ == seq![ascii_lower(c)],
{
    match c {
        'A' => {
            proof {
                reveal_strlit("a");
            }
            "a"
        },
        'B' => {
            proof {
                reveal_strlit("b");
            }
            "b"
        },
        'C' => {
            proof {
                reveal_strlit("c");
            }
            "c"
        },
        'D' => {
            proof {
                reveal_strlit("d");
            }
            "d"
        },
        'E' => {
            proof {
                reveal_strlit("e");
            }
            "e"
        },
        'F' => {
            proof {
                reveal_strlit("f");
            }
            "f"
        },
        'G' => {
            proof {
                reveal_strlit("g");
            }
            "g"
        },
        'H' => {
            proof {
                reveal_strlit("h");
            }
            "h"
        },
        'I' => {
            proof {
                reveal_strlit("i");
            }
            "i"
        },
        'J' => {
            proof {
                reveal_strlit("j");
            }
            "j"
        },
        'K' => {
            proof {
                reveal_strlit("k");
            }
            "k"
        },
        'L' => {
            proof {
                reveal_strlit("l");
            }
            "l"
        },
        'M' => {
            proof {
                reveal_strlit("m");
            }
            "m"
        },
        'N' => {
            proof {
                reveal_strlit("n");
            }
            "n"
        },
        'O' => {
            proof {
                reveal_strlit("o");
            }
            "o"
        },
        'P' => {
            proof {
                reveal_strlit("p");
            }
            "p"
        },
        'Q' => {
            proof {
                reveal_strlit("q");
            }
            "q"
        },
        'R' => {
            proof {
                reveal_strlit("r");
            }
            "r"
        },
        'S' => {
            proof {
                reveal_strlit("s");
            }
            "s"
        },
        'T' => {
            proof {
                reveal_strlit("t");
            }
            "t"
        },
        'U' => {
            proof {
                reveal_strlit("u");
            }
            "u"
        },
        'V' => {
            proof {
                reveal_strlit("v");
            }
            "v"
        },
        'W' => {
            proof {
                reveal_strlit("w");
            }
            "w"
        },
        'X' => {
            proof {
                reveal_strlit("x");
            }
            "x"
        },
        'Y' => {
            proof {
                reveal_strlit("y");
            }
            "y"
        },
        _ => {
            proof {
                reveal_strlit("z");
            }
            "z"
        },
    }
}

/// Whether the characters after the leading `f` of `key` (of `n`
/// characters) name a function key `1` to `12`.
fn is_function_number(key: &str, n: usize) -> (r: bool)
    requires
        n == key@.len(),
        2 <= n <= 3,
    ensures
        r == (function_number(lower(key@).subrange(1, n as int)) is Some),
{
    let ghost rest = lower(key@).subrange(1, n as int);
    let c1 = ascii_lower_char(key.get_char(1));
    assert(rest[0] == c1);
    if n == 2 {
        c1 >= '1' && c1 <= '9'
    } else {
        let c2 = ascii_lower_char(key.get_char(2));
        assert(rest[1] == c2);
        c1 == '1' && c2 >= '0' && c2 <= '2'
    }
}

/// The message of an unsupported-key error.
pub open spec fn unsupported_key_text(key: Seq<char>) -> Seq<char> {
    "unsupported key '"@ + key + "'; use a letter, digit, F1-F12, or a documented named key"@
}

fn unsupported_key_message(key: &str) -> (s: String)
    ensures
        s@ == unsupported_key_text(key@),
{
    let mut s = String::from_str("unsupported key '");
    s.append(key);
    s.append("'; use a letter, digit, F1-F12, or a documented named key");
    s
}

/// The X keysym for a key name. Single ASCII letters and digits are
/// lowercased, documented names are matched without regard to ASCII case,
/// and `f1`..`f12` become `F1`..`F12`; anything else is `INVALID_ARGUMENT`.
pub fn normalize_key(key: &str) -> (r: Result<String>)
    ensures
        match r {
            Ok(s) => spec_normalize_key(key@) == Some(s@),
            Err(e) => spec_normalize_key(key@) is None && e.code == "INVALID_ARGUMENT" && e.message@
                == unsupported_key_text(key@),
        },
{
    let n = key.unicode_len();
    if n == 1 {
        let c = key.get_char(0);
        if (c >= '0' && c <= '9') || (c >= 'a' && c <= 'z') {
            assert(key@ =~= seq![ascii_lower(c)]);
            return Ok(key.to_string());
        }
        if c >= 'A' && c <= 'Z' {
            return Ok(lowercase_letter(c).to_string());
        }
    }
    if let Some(sym) = named_key(key) {
        return Ok(sym.to_string());
    }
    if n >= 2 && n <= 3 && ascii_lower_char(key.get_char(0)) == 'f' {
        if is_function_number(key, n) {
            let rest = key.substring_char(1, n);
            assert(rest@ =~= lower(key@).subrange(1, n as int));
            let mut s = String::from_str("F");
            proof {
                reveal_strlit("F");
            }
            s.append(rest);
            return Ok(s);
        }
    }
    Err(HarnessError::invalid(unsupported_key_message(key)))
}

/// The name `wtype` uses for a modifier.
pub open spec fn wtype_modifier(m: KeyModifier) -> Seq<char> {
    match m {
        KeyModifier::Ctrl => "ctrl"@,
        KeyModifier::Alt => "alt"@,
        KeyModifier::Shift => "shift"@,
        KeyModifier::Super => "logo"@,
    }
}

/// `-M name` for each modifier, in order: press and hold.
pub open spec fn modifier_presses(mods: Seq<KeyModifier>) -> Seq<Seq<char>>
    decreases mods.len(),
{
    if mods.len() == 0 {
        Seq::empty()
    } else {
        modifier_presses(mods.drop_last()) + seq!["-M"@, wtype_modifier(mods.last())]
    }
}

/// `-m name` for each modifier, last first: release in reverse order.
pub open spec fn modifier_releases(mods: Seq<KeyModifier>) -> Seq<Seq<char>>
    decreases mods.len(),
{
    if mods.len() == 0 {
        Seq::empty()
    } else {
        seq!["-m"@, wtype_modifier(mods.last())] + modifier_releases(mods.drop_last())
    }
}

/// `-k keysym`, `repeat` times.
pub open spec fn key_taps(keysym: Seq<char>, repeat: nat) -> Seq<Seq<char>>
    decreases repeat,
{
    if repeat == 0 {
        Seq::empty()
    } else {
        key_taps(keysym, (repeat - 1) as nat) + seq!["-k"@, keysym]
    }
}

/// The `wtype` arguments that press a chord: hold the modifiers, tap the key
/// `repeat` times, release the modifiers in reverse order.
pub open spec fn spec_press_key_args(keysym: Seq<char>, mods: Seq<KeyModifier>, repeat: nat) -> Seq<
    Seq<char>,
> {
    modifier_presses(mods) + key_taps(keysym, repeat) + modifier_releases(mods)
}

/// The views of a vector of strings.
pub open spec fn string_views(v: Seq<String>) -> Seq<Seq<char>> {
    v.map_values(|s: String| s@)
}

fn push_pair(args: &mut Vec<String>, flag: &str, value: &str)
    ensures
        string_views(final(args)@) == string_views(old(args)@) + seq![flag@, value@],
{
    args.push(flag.to_string());
    args.push(value.to_string());
    assert(string_views(args@) =~= string_views(old(args)@) + seq![flag@, value@]);
}

/// Whether some modifier occurs twice.
pub open spec fn repeats_modifier(mods: Seq<KeyModifier>) -> bool {
    exists|i: int, j: int| 0 <= i < j < mods.len() && mods[i] == mods[j]
}

fn has_repeated_modifier(modifiers: &[KeyModifier]) -> (b: bool)
    ensures
        b == repeats_modifier(modifiers@),
{
    let mut j: usize = 0;
    while j < modifiers.len()
        invariant
            j <= modifiers@.len(),
            forall|a: int, b: int| 0 <= a < b < j ==> modifiers@[a] != modifiers@[b],
        decreases modifiers@.len() - j,
    {
        let mut i: usize = 0;
        while i < j
            invariant
                i <= j < modifiers@.len(),
                forall|a: int| 0 <= a < i ==> modifiers@[a] != modifiers@[j as int],
            decreases j - i,
        {
            if modifiers[i] == modifiers[j] {
                return true;
            }
            i = i + 1;
        }
        j = j + 1;
    }
    false
}

/// The `wtype` arguments for pressing `key` with `modifiers` held, `repeat`
/// times; `INVALID_ARGUMENT` when the key name is not supported, or else
/// when a modifier is given twice.
pub fn press_key_args(key: &str, modifiers: &[KeyModifier], repeat: u8) -> (r: Result<Vec<String>>)
    ensures
        r is Ok <==> spec_normalize_key(key@) is Some && !repeats_modifier(modifiers@),
        match r {
            Ok(v) => spec_normalize_key(key@) matches Some(sym) && string_views(v@)
                == spec_press_key_args(sym, modifiers@, repeat as nat),
            Err(e) => e.code == "INVALID_ARGUMENT" && e.message@ == if spec_normalize_key(
                key@,
            ) is None {
                unsupported_key_text(key@)
            } else {
                "modifiers must not repeat"@
            },
        },
{
    let keysym = match normalize_key(key) {
        Ok(k) => k,
        Err(e) => return Err(e),
    };
    if has_repeated_modifier(modifiers) {
        return Err(HarnessError::invalid("modifiers must not repeat".to_string()));
    }
    let mut args: Vec<String> = Vec::new();
    let mut i: usize = 0;
    while i < modifiers.len()
        invariant
            i <= modifiers@.len(),
            string_views(args@) == modifier_presses(modifiers@.take(i as int)),
        decreases modifiers@.len() - i,
    {
        assert(modifiers@.take(i + 1).drop_last() =~= modifiers@.take(i as int));
        push_pair(&mut args, "-M", modifiers[i].wtype_name());
        i = i + 1;
    }
    assert(modifiers@.take(modifiers@.len() as int) =~= modifiers@);
    let ghost pressed = string_views(args@);
    let mut k: u8 = 0;
    while k < repeat
        invariant
            k <= repeat,
            string_views(args@) == pressed + key_taps(keysym@, k as nat),
        decreases repeat - k,
    {
        push_pair(&mut args, "-k", keysym.as_str());
        k = k + 1;
    }
    let ghost tapped = string_views(args@);
    let mut j: usize = modifiers.len();
    while j > 0
        invariant
            j <= modifiers@.len(),
            string_views(args@) + modifier_releases(modifiers@.take(j as int)) == tapped
                + modifier_releases(modifiers@),
        decreases j,
    {
        let ghost before = string_views(args@);
        assert(modifiers@.take(j as int).drop_last() =~= modifiers@.take(j - 1));
        assert(modifiers@.take(j as int).last() == modifiers@[j - 1]);
        push_pair(&mut args, "-m", modifiers[j - 1].wtype_name());
        j = j - 1;
        assert(string_views(args@) + modifier_releases(modifiers@.take(j as int)) =~= before
            + modifier_releases(modifiers@.take(j + 1)));
    }
    assert(modifiers@.take(0) =~= Seq::<KeyModifier>::empty());
    assert(string_views(args@) =~= tapped + modifier_releases(modifiers@));
    Ok(args)
}

/// The `wtype` arguments that type text read from standard input with
/// `interval_ms` between characters; `INVALID_ARGUMENT` when the text holds
/// a NUL character.
pub fn type_text_args(text: &str, interval_ms: u32) -> (r: Result<Vec<String>>)
    ensures
        r is Ok <==> !text@.contains('\0'),
        r matches Ok(v) ==> string_views(v@) == seq!["-d"@, decimal(interval_ms as nat), "-"@],
        r matches Err(e) ==> e.code == "INVALID_ARGUMENT" && e.message@
            == "text cannot contain a NUL character"@,
{
    if contains_nul(text) {
        return Err(HarnessError::invalid("text cannot contain a NUL character".to_string()));
    }
    let mut args: Vec<String> = Vec::new();
    args.push("-d".to_string());
    args.push(decimal_string(interval_ms as u64));
    args.push("-".to_string());
    assert(string_views(args@) =~= seq!["-d"@, decimal(interval_ms as nat), "-"@]);
    Ok(args)
}

/// Keyboard input through the `wtype` program.
#[derive(Debug)]
pub struct WtypeKeyboard {
    executable: PathBuf,
}

impl WtypeKeyboard {
    /// A keyboard backend that runs the given `wtype` executable.
    pub fn from_path(executable: PathBuf) -> (k: Self)
        ensures
            k.executable() == executable,
    {
        WtypeKeyboard { executable }
    }

    /// The `wtype` executable this backend runs.
    pub closed spec fn executable(&self) -> PathBuf {
        self.executable
    }

    /// The `wtype` executable this backend runs.
    pub fn executable_path(&self) -> (p: &PathBuf)
        ensures
            *p == self.executable(),
    {
        &self.executable
    }
}

} // verus!
