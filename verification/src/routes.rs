//! Texts that the HTTP routes serve and that depend on the shared state.

use vstd::prelude::*;

use crate::svgmap::string_views;

verus! {

/// The character of decimal digit `d`.
pub open spec fn digit_char(d: int) -> char {
    if d == 0 {
        '0'
    } else if d == 1 {
        '1'
    } else if d == 2 {
        '2'
    } else if d == 3 {
        '3'
    } else if d == 4 {
        '4'
    } else if d == 5 {
        '5'
    } else if d == 6 {
        '6'
    } else if d == 7 {
        '7'
    } else if d == 8 {
        '8'
    } else {
        '9'
    }
}

/// `n` written in decimal, without leading zeros.
pub open spec fn decimal_text(n: nat) -> Seq<char>
    decreases n,
{
    if n < 10 {
        seq![digit_char(n as int)]
    } else {
        decimal_text(n / 10).push(digit_char((n % 10) as int))
    }
}

/// The number a text of decimal digits stands for.
pub open spec fn decimal_value(digits: Seq<char>) -> int
    decreases digits.len(),
{
    if digits.len() == 0 {
        0
    } else {
        decimal_value(digits.drop_last()) * 10 + (digits.last() as int - '0' as int)
    }
}

proof fn lemma_digit_char_value(d: int)
    requires
        0 <= d < 10,
    ensures
        digit_char(d) as int == '0' as int + d,
        '0' <= digit_char(d) <= '9',
{
}

/// Reading back `n` written in decimal gives `n`, and every character
/// written is a digit.
pub proof fn law_decimal_reads_back(n: nat)
    ensures
        decimal_value(decimal_text(n)) == n,
        forall|i: int|
            0 <= i < decimal_text(n).len() ==> '0' <= #[trigger] decimal_text(n)[i] <= '9',
    decreases n,
{
    let t = decimal_text(n);
    if n < 10 {
        lemma_digit_char_value(n as int);
        assert(t.drop_last() =~= Seq::<char>::empty());
        assert(decimal_value(t.drop_last()) == 0);
        assert(t.last() == digit_char(n as int));
        assert(decimal_value(t) == decimal_value(t.drop_last()) * 10 + (t.last() as int - '0' as int));
    } else {
        law_decimal_reads_back(n / 10);
        let d = n % 10;
        assert(t.drop_last() =~= decimal_text(n / 10));
        assert(t.last() == digit_char(d as int));
        assert(n == (n / 10) * 10 + d) by (nonlinear_arith)
            requires
                d == n % 10,
        ;
        lemma_digit_char_value(d as int);
        assert(decimal_value(t) == decimal_value(t.drop_last()) * 10 + (t.last() as int - '0' as int));
        assert(decimal_value(t) == (n / 10) * 10 + d);
        assert forall|i: int| 0 <= i < t.len() implies '0' <= #[trigger] t[i] <= '9' by {
            if i < t.len() - 1 {
                assert(t[i] == decimal_text(n / 10)[i]);
            }
        }
    }
}

fn digit_text(d: u16) -> (s: String)
    requires
        d < 10,
    ensures
        s@ == seq![digit_char(d as int)],
{
    let s = if d == 0 {
        String::from_str("0")
    } else if d == 1 {
        String::from_str("1")
    } else if d == 2 {
        String::from_str("2")
    } else if d == 3 {
        String::from_str("3")
    } else if d == 4 {
        String::from_str("4")
    } else if d == 5 {
        String::from_str("5")
    } else if d == 6 {
        String::from_str("6")
    } else if d == 7 {
        String::from_str("7")
    } else if d == 8 {
        String::from_str("8")
    } else {
        String::from_str("9")
    };
    proof {
        reveal_strlit("0");
        reveal_strlit("1");
        reveal_strlit("2");
        reveal_strlit("3");
        reveal_strlit("4");
        reveal_strlit("5");
        reveal_strlit("6");
        reveal_strlit("7");
        reveal_strlit("8");
        reveal_strlit("9");
    }
    assert(s@ =~= seq![digit_char(d as int)]);
    s
}

/// Appends `n` in decimal to `s`.
fn push_decimal(n: u16, s: &mut String)
    ensures
        final(s)@ == old(s)@ + decimal_text(n as nat),
    decreases n,
{
    if n >= 10 {
        push_decimal(n / 10, s);
    }
    let digit = digit_text(n % 10);
    s.append(digit.as_str());
    assert(decimal_text(n as nat) == if n < 10 {
        seq![digit_char(n as int)]
    } else {
        decimal_text((n / 10) as nat).push(digit_char((n % 10) as int))
    });
    if n < 10 {
        assert(n % 10 == n);
    }
}

/// `n` written in decimal.
pub fn decimal_string(n: u16) -> (s: String)
    ensures
        s@ == decimal_text(n as nat),
{
    let mut s = String::new();
    push_decimal(n, &mut s);
    assert(s@ =~= decimal_text(n as nat));
    s
}

/// How Rust's `Debug` formatting writes a list of texts (as in
/// `["a", "b"]`, each text quoted and escaped).
pub uninterp spec fn debug_list_text(items: Seq<Seq<char>>) -> Seq<char>;

/// `format!("{:?}", items)`: std's `Debug` formatting of a `Vec<String>`.
/// Claims only that the text is `debug_list_text` of the items.
#[verifier::external_body]
fn debug_list_string(items: &Vec<String>) -> (s: String)
    ensures
        s@ == debug_list_text(string_views(items@)),
{
    format!("{:?}", items)
}

/// The script that tells the browser app the websocket port and the
/// rooms on the map.
pub open spec fn app_variables_text(websocket_port: u16, room_ids: Seq<Seq<char>>) -> Seq<char> {
    "\nwindow.websocket_port = "@ + decimal_text(websocket_port as nat)
        + ";\nwindow.map_room_ids = "@ + debug_list_text(room_ids) + ";\n"@
}

/// The script that tells the browser app the websocket port and the
/// rooms on the map (see `app_variables_text`).
pub fn appvariables_js(websocket_port: u16, room_ids: &Vec<String>) -> (js: String)
    ensures
        js@ == app_variables_text(websocket_port, string_views(room_ids@)),
{
    let mut js = String::from_str("\nwindow.websocket_port = ");
    let port = decimal_string(websocket_port);
    js.append(port.as_str());
    js.append(";\nwindow.map_room_ids = ");
    let ids = debug_list_string(room_ids);
    js.append(ids.as_str());
    js.append(";\n");
    js
}

} // verus!
