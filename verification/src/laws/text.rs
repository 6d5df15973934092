//! Texts and numbers.
use crate::session::{built_in, name_list, suffix_of, terminal_number, variables};
use crate::text::{
    begins_with, decimal, digit_char, digits_value, holds_text, is_white_space, number_u32, pieces,
    replaced, sorts_before, stands_at, trimmed,
};
use vstd::prelude::*;

verus! {

/// Every character from `a` up to `b` is white space.
pub open spec fn white(s: Seq<char>, a: int, b: int) -> bool {
    forall|i: int| a <= i < b ==> is_white_space(#[trigger] s[i])
}

/// The part of `s` between the places `a` and `b` is left, and the rest is white space.
pub open spec fn is_core(s: Seq<char>, a: int, b: int) -> bool {
    0 <= a <= b <= s.len() && white(s, 0, a) && white(s, b, s.len() as int) && s.subrange(a, b)
        == trimmed(s)
}

/// What is left of a trimmed text is the part of it between the first and the last character that
/// is no white space, and nothing else is cut off.
pub proof fn law_trimming_cuts_white_space(s: Seq<char>)
    ensures
        exists|a: int, b: int| is_core(s, a, b),
        trimmed(s).len() > 0 ==> !is_white_space(trimmed(s)[0]) && !is_white_space(
            trimmed(s)[trimmed(s).len() - 1],
        ),
{
    let (a, b) = lemma_core(s);
    assert(is_core(s, a, b));
}

proof fn lemma_core(s: Seq<char>) -> (r: (int, int))
    ensures
        is_core(s, r.0, r.1),
        trimmed(s).len() > 0 ==> !is_white_space(trimmed(s)[0]) && !is_white_space(
            trimmed(s)[trimmed(s).len() - 1],
        ),
    decreases s.len(),
{
    if s.len() == 0 {
        assert(s.subrange(0, 0) =~= s);
        (0, 0)
    } else if is_white_space(s[0]) {
        let t = s.subrange(1, s.len() as int);
        let (a, b) = lemma_core(t);
        assert(s.subrange(a + 1, b + 1) =~= t.subrange(a, b));
        assert(white(s, 0, a + 1)) by {
            assert forall|i: int| 0 <= i < a + 1 implies is_white_space(#[trigger] s[i]) by {
                if i > 0 {
                    let q = i - 1;
                    assert(is_white_space(t[q]));
                    assert(t[q] == s[q + 1]);
                }
            }
        }
        assert(white(s, b + 1, s.len() as int)) by {
            assert forall|i: int| b + 1 <= i < s.len() implies is_white_space(#[trigger] s[i]) by {
                let q = i - 1;
                assert(is_white_space(t[q]));
                assert(t[q] == s[q + 1]);
            }
        }
        (a + 1, b + 1)
    } else if is_white_space(s[s.len() - 1]) {
        let t = s.subrange(0, s.len() - 1);
        let (a, b) = lemma_core(t);
        assert(s.subrange(a, b) =~= t.subrange(a, b));
        assert(white(s, 0, a)) by {
            assert forall|i: int| 0 <= i < a implies is_white_space(#[trigger] s[i]) by {
                assert(is_white_space(t[i]));
            }
        }
        assert(white(s, b, s.len() as int)) by {
            assert forall|i: int| b <= i < s.len() implies is_white_space(#[trigger] s[i]) by {
                if i < t.len() {
                    assert(is_white_space(t[i]));
                }
            }
        }
        (a, b)
    } else {
        assert(s.subrange(0, s.len() as int) =~= s);
        (0, s.len() as int)
    }
}

/// The pieces, with a separator between each two.
pub open spec fn joined(p: Seq<Seq<char>>, sep: char) -> Seq<char>
    decreases p.len(),
{
    if p.len() == 0 {
        Seq::empty()
    } else if p.len() == 1 {
        p[0]
    } else {
        joined(p.drop_last(), sep).push(sep) + p.last()
    }
}

/// A text that was split is put together again from its pieces, and no piece holds the separator.
pub proof fn law_pieces_make_up_the_text(s: Seq<char>, sep: char)
    ensures
        pieces(s, sep).len() > 0,
        joined(pieces(s, sep), sep) == s,
        forall|i: int| 0 <= i < pieces(s, sep).len() ==> !(#[trigger] pieces(s, sep)[i]).contains(
            sep,
        ),
    decreases s.len(),
{
    if s.len() == 0 {
        assert(joined(pieces(s, sep), sep) =~= s);
        assert(!pieces(s, sep)[0].contains(sep));
    } else {
        let t = s.drop_last();
        law_pieces_make_up_the_text(t, sep);
        let head = pieces(t, sep);
        let all = pieces(s, sep);
        let n = head.len() - 1;
        if s.last() == sep {
            assert(all.drop_last() =~= head);
            assert(joined(all, sep) =~= t.push(sep));
            assert(s =~= t.push(sep));
            assert forall|i: int| 0 <= i < all.len() implies !(#[trigger] all[i]).contains(sep) by {
                if i < head.len() {
                    assert(all[i] == head[i]);
                }
            }
        } else {
            assert(s =~= t.push(s.last()));
            if head.len() == 1 {
                assert(joined(all, sep) =~= s);
            } else {
                assert(all.drop_last() =~= head.drop_last());
                assert(joined(all, sep) =~= joined(head, sep).push(s.last()));
            }
            assert forall|i: int| 0 <= i < all.len() implies !(#[trigger] all[i]).contains(sep) by {
                if i < n {
                    assert(all[i] == head[i]);
                } else {
                    let l = head[n];
                    assert(!l.contains(sep));
                    if all[n].contains(sep) {
                        let k = choose|k: int| 0 <= k < all[n].len() && all[n][k] == sep;
                        if k < l.len() {
                            assert(l[k] == sep);
                        }
                    }
                }
            }
        }
    }
}

/// A number that is written down is read back, and has no leading zero.
pub proof fn law_numbers_read_back(n: nat)
    ensures
        digits_value(decimal(n)) == Some(n),
        decimal(n).len() > 0,
        n > 0 ==> decimal(n)[0] != '0',
        n == 0 ==> decimal(n) == seq!['0'],
    decreases n,
{
    if n < 10 {
        let s = decimal(n);
        assert(s.drop_last() =~= Seq::<char>::empty());
        assert(digits_value(s.drop_last()) == Some(0nat));
        assert(s.last() as int - '0' as int == n);
        if n > 0 {
            assert(s[0] as int != '0' as int);
        } else {
            assert(s[0] as int == '0' as int);
            assert(digit_char(0) == '0');
        }
    } else {
        let s = decimal(n);
        law_numbers_read_back(n / 10);
        assert(s.drop_last() =~= decimal(n / 10));
        assert(s.last() as int - '0' as int == n % 10);
        assert(s[0] == decimal(n / 10)[0]);
    }
}

/// A text is a number exactly if it is made of digits, with or without a plus sign before them,
/// and does not exceed the range.
pub proof fn law_numbers_are_digits(s: Seq<char>)
    ensures
        s.len() == 0 ==> number_u32(s) is None,
        s == seq!['+'] ==> number_u32(s) is None,
        s.len() > 0 && s[0] != '+' ==> (number_u32(s) is Some <==> digits_value(s) is Some
            && digits_value(s)->0 <= 0xffff_ffff),
        number_u32(s) is Some && s[0] != '+' ==> number_u32(s) == digits_value(s),
        s.len() > 1 && s[0] == '+' && s[1] != '+' ==> number_u32(s) == number_u32(
            s.subrange(1, s.len() as int),
        ),
{
}

/// Digits read as a number exactly if every character is one.
pub proof fn law_digits(s: Seq<char>)
    ensures
        digits_value(s) is Some <==> forall|i: int|
            0 <= i < s.len() ==> '0' as int <= #[trigger] s[i] as int <= '9' as int,
    decreases s.len(),
{
    if s.len() > 0 {
        let head = s.drop_last();
        law_digits(head);
        assert(s[s.len() - 1] == s.last());
        assert forall|i: int| 0 <= i < head.len() implies #[trigger] head[i] == s[i] by {}
        if forall|i: int| 0 <= i < s.len() ==> '0' as int <= #[trigger] s[i] as int <= '9' as int {
            assert forall|i: int| 0 <= i < head.len() implies '0' as int <= #[trigger] head[i] as int
                <= '9' as int by {
                assert(head[i] == s[i]);
            }
        }
        if digits_value(s) is Some {
            assert forall|i: int| 0 <= i < s.len() implies '0' as int <= #[trigger] s[i] as int
                <= '9' as int by {
                if i < head.len() {
                    assert(head[i] == s[i]);
                }
            }
        }
    }
}

/// Replacing touches the one character alone, wherever it stands.
pub proof fn law_replacing(s: Seq<char>, from: char, to: char, i: int)
    requires
        0 <= i < s.len(),
    ensures
        replaced(s, from, to).len() == s.len(),
        s[i] == from ==> replaced(s, from, to)[i] == to,
        s[i] != from ==> replaced(s, from, to)[i] == s[i],
{
}

/// A text begins with another exactly if the rest can be put behind it, and holds another exactly
/// if something can be put on both sides.
pub proof fn law_parts_of_texts(a: Seq<char>, part: Seq<char>, c: Seq<char>, s: Seq<char>)
    ensures
        begins_with(part + c, part),
        holds_text(a + part + c, part),
        begins_with(s, part) ==> s == part + s.skip(part.len() as int),
        begins_with(s, part) ==> holds_text(s, part),
{
    assert((part + c).subrange(0, part.len() as int) =~= part);
    assert((a + part + c).subrange(a.len() as int, a.len() as int + part.len()) =~= part);
    assert(stands_at(a + part + c, part, a.len() as int));
    if begins_with(s, part) {
        assert(s =~= part + s.skip(part.len() as int)) by {
            assert forall|i: int| 0 <= i < part.len() implies s[i] == part[i] by {
                assert(s.subrange(0, part.len() as int)[i] == s[i]);
            }
        }
        assert(stands_at(s, part, 0));
    }
}

/// Texts are in the order of the first characters that differ, and a beginning comes before the
/// whole.
pub proof fn law_order_of_texts(common: Seq<char>, a: Seq<char>, b: Seq<char>)
    ensures
        a.len() > 0 && b.len() > 0 && a[0] != b[0] ==> (sorts_before(common + a, common + b)
            <==> a[0] < b[0]),
        b.len() > 0 ==> sorts_before(common, common + b),
        !sorts_before(common, common),
    decreases common.len(),
{
    if common.len() > 0 {
        let rest = common.skip(1);
        law_order_of_texts(rest, a, b);
        assert((common + a).skip(1) =~= rest + a);
        assert((common + b).skip(1) =~= rest + b);
        assert((common + a)[0] == common[0] && (common + b)[0] == common[0]);
    } else {
        assert(common + a =~= a);
        assert(common + b =~= b);
    }
}

/// Built-in panels are told by the beginning of their connector's name.
pub proof fn law_built_in_panels(rest: Seq<char>)
    ensures
        built_in("eDP-"@ + rest),
        built_in("LVDS"@ + rest),
        built_in("DSI-"@ + rest),
        !built_in("HDMI-"@ + rest),
        !built_in("DP-"@ + rest),
{
    reveal_strlit("eDP-");
    reveal_strlit("LVDS");
    reveal_strlit("DSI-");
    reveal_strlit("HDMI-");
    reveal_strlit("DP-");
    law_parts_of_texts(Seq::empty(), "eDP-"@, rest, Seq::empty());
    law_parts_of_texts(Seq::empty(), "LVDS"@, rest, Seq::empty());
    law_parts_of_texts(Seq::empty(), "DSI-"@, rest, Seq::empty());
    let h = "HDMI-"@ + rest;
    let d = "DP-"@ + rest;
    assert(h[0] == 'H' && d[0] == 'D' && d[1] == 'P');
    assert(h.subrange(0, 4)[0] == 'H');
    if d.len() >= 4 {
        assert(d.subrange(0, 4)[0] == 'D' && d.subrange(0, 4)[1] == 'P');
    }
    assert("eDP-"@[0] == 'e' && "LVDS"@[0] == 'L' && "DSI-"@[0] == 'D' && "DSI-"@[1] == 'S');
}

/// A terminal is named by its number behind the word for it, and the suffix for it holds the same
/// number.
pub proof fn law_terminals_are_numbered(n: u32)
    ensures
        terminal_number("tty"@ + decimal(n as nat)) == Some(n as nat),
        suffix_of(Some(n)) == "-vt"@ + decimal(n as nat),
        suffix_of(None) == Seq::<char>::empty(),
{
    reveal_strlit("tty");
    let d = decimal(n as nat);
    let s = "tty"@ + d;
    law_numbers_read_back(n as nat);
    law_digits(d);
    law_parts_of_texts(Seq::empty(), "tty"@, d, Seq::empty());
    assert(s[0] == 't');
    assert(!is_white_space(s[0]));
    assert(s[s.len() - 1] == d[d.len() - 1]);
    assert(!is_white_space(s[s.len() - 1]));
    assert(trimmed(s) == s);
    assert(s.subrange(3, s.len() as int) =~= d);
    assert(d[0] != '+') by {
        assert('0' as int <= d[0] as int <= '9' as int);
    }
}

/// The names of variables stand in order with a blank between each two.
pub proof fn law_names_in_a_list(vars: Seq<(String, String)>, next: (String, String))
    ensures
        vars.len() == 0 ==> name_list(vars.push(next)) == next.0@,
        vars.len() > 0 ==> name_list(vars.push(next)) == name_list(vars) + " "@ + next.0@,
{
    assert(vars.push(next).drop_last() =~= vars);
}

/// Programs of the session find the socket, and the X server exactly if there is one.
pub proof fn law_programs_find_the_socket(socket: Seq<char>, display: Seq<char>)
    ensures
        variables(socket, None).contains(("WAYLAND_DISPLAY"@, socket)),
        variables(socket, Some(display)).contains(("WAYLAND_DISPLAY"@, socket)),
        variables(socket, Some(display)).contains(("DISPLAY"@, display)),
        variables(socket, None).contains(("XDG_SESSION_TYPE"@, "wayland"@)),
        variables(socket, None).contains(("XDG_CURRENT_DESKTOP"@, "ewm"@)),
        variables(socket, Some(display)).len() == variables(socket, None).len() + 1,
{
    let v = variables(socket, None);
    let w = variables(socket, Some(display));
    assert(v[0] == ("WAYLAND_DISPLAY"@, socket));
    assert(w[0] == ("WAYLAND_DISPLAY"@, socket));
    assert(w[5] == ("DISPLAY"@, display));
    assert(v[1] == ("XDG_CURRENT_DESKTOP"@, "ewm"@));
    assert(v[2] == ("XDG_SESSION_TYPE"@, "wayland"@));
}

} // verus!
