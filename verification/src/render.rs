//! Rendering of session identifiers, backend URLs and display names.
//!
//! A session identifier is the fixed prefix `tab_` followed by the decimal
//! digits of the counter value that produced it; a backend URL is
//! `http://127.0.0.1:` followed by the decimal digits of the port. Both are
//! built here by verified code, and the decimal rendering is proved
//! injective, which is what makes freshly generated identifiers distinct
//! from every identifier already in the session table.

use vstd::arithmetic::div_mod::lemma_fundamental_div_mod;
use vstd::prelude::*;
use vstd::string::StringExecFns;

verus! {

/// The character for one decimal digit.
pub open spec fn digit_char(d: nat) -> char {
    if d == 0 {
        '0'
    } else if d == 1 {
        '1'
    } else if d == 2 {
        '2'
    } else if d == 3 {
        '3'
    } else if d == 4 {
        '4'
    } else if d == 5 {
        '5'
    } else if d == 6 {
        '6'
    } else if d == 7 {
        '7'
    } else if d == 8 {
        '8'
    } else {
        '9'
    }
}

/// The decimal digits of `n`, most significant first, with no sign and no
/// leading zeros (a single `'0'` for zero).
pub open spec fn dec_digits(n: nat) -> Seq<char>
    decreases n,
{
    if n < 10 {
        seq![digit_char(n)]
    } else {
        dec_digits(n / 10) + seq![digit_char(n % 10)]
    }
}

pub proof fn lemma_dec_digits_len(n: nat)
    ensures
        dec_digits(n).len() >= 1,
        n >= 10 ==> dec_digits(n).len() >= 2,
    decreases n,
{
    if n >= 10 {
        lemma_dec_digits_len(n / 10);
    }
}

proof fn lemma_digit_char_injective(a: nat, b: nat)
    requires
        a < 10,
        b < 10,
        digit_char(a) == digit_char(b),
    ensures
        a == b,
{
}

/// Distinct numbers have distinct decimal renderings.
pub proof fn lemma_dec_digits_injective(a: nat, b: nat)
    requires
        dec_digits(a) == dec_digits(b),
    ensures
        a == b,
    decreases a + b,
{
    lemma_dec_digits_len(a);
    lemma_dec_digits_len(b);
    if a < 10 && b < 10 {
        assert(dec_digits(a)[0] == digit_char(a));
        assert(dec_digits(b)[0] == digit_char(b));
        lemma_digit_char_injective(a, b);
    } else if a < 10 || b < 10 {
        // One rendering has a single digit, the other at least two.
        assert(false);
    } else {
        assert(dec_digits(a).last() == digit_char(a % 10));
        assert(dec_digits(b).last() == digit_char(b % 10));
        lemma_digit_char_injective(a % 10, b % 10);
        assert(dec_digits(a / 10) =~= dec_digits(a).drop_last());
        assert(dec_digits(b / 10) =~= dec_digits(b).drop_last());
        lemma_dec_digits_injective(a / 10, b / 10);
        lemma_fundamental_div_mod(a as int, 10);
        lemma_fundamental_div_mod(b as int, 10);
    }
}

/// The fixed prefix of every session identifier.
pub open spec fn tab_id_prefix() -> Seq<char> {
    seq!['t', 'a', 'b', '_']
}

/// The identifier assigned to the session created with counter value `n`.
pub open spec fn tab_id_chars(n: nat) -> Seq<char> {
    tab_id_prefix() + dec_digits(n)
}

/// Distinct counter values yield distinct identifiers.
pub proof fn lemma_tab_id_injective(a: nat, b: nat)
    requires
        tab_id_chars(a) == tab_id_chars(b),
    ensures
        a == b,
{
    let p = tab_id_prefix();
    assert(dec_digits(a) =~= tab_id_chars(a).subrange(
        p.len() as int,
        tab_id_chars(a).len() as int,
    ));
    assert(dec_digits(b) =~= tab_id_chars(b).subrange(
        p.len() as int,
        tab_id_chars(b).len() as int,
    ));
    lemma_dec_digits_injective(a, b);
}

/// The fixed prefix of every backend URL: the server binds to loopback.
pub open spec fn url_prefix() -> Seq<char> {
    seq!['h', 't', 't', 'p', ':', '/', '/', '1', '2', '7', '.', '0', '.', '0', '.', '1', ':']
}

/// The URL at which the backend bound to `port` is reachable.
pub open spec fn url_chars(port: u16) -> Seq<char> {
    url_prefix() + dec_digits(port as nat)
}

fn digit_str(d: u32) -> (r: &'static str)
    requires
        d < 10,
    ensures
        r@ == seq![digit_char(d as nat)],
{
    if d == 0 {
        proof {
            reveal_strlit("0");
            assert("0"@ =~= seq![digit_char(0)]);
        }
        "0"
    } else if d == 1 {
        proof {
            reveal_strlit("1");
            assert("1"@ =~= seq![digit_char(1)]);
        }
        "1"
    } else if d == 2 {
        proof {
            reveal_strlit("2");
            assert("2"@ =~= seq![digit_char(2)]);
        }
        "2"
    } else if d == 3 {
        proof {
            reveal_strlit("3");
            assert("3"@ =~= seq![digit_char(3)]);
        }
        "3"
    } else if d == 4 {
        proof {
            reveal_strlit("4");
            assert("4"@ =~= seq![digit_char(4)]);
        }
        "4"
    } else if d == 5 {
        proof {
            reveal_strlit("5");
            assert("5"@ =~= seq![digit_char(5)]);
        }
        "5"
    } else if d == 6 {
        proof {
            reveal_strlit("6");
            assert("6"@ =~= seq![digit_char(6)]);
        }
        "6"
    } else if d == 7 {
        proof {
            reveal_strlit("7");
            assert("7"@ =~= seq![digit_char(7)]);
        }
        "7"
    } else if d == 8 {
        proof {
            reveal_strlit("8");
            assert("8"@ =~= seq![digit_char(8)]);
        }
        "8"
    } else {
        proof {
            reveal_strlit("9");
            assert("9"@ =~= seq![digit_char(9)]);
        }
        "9"
    }
}

/// The decimal rendering of `n`.
pub fn decimal_string(n: u32) -> (r: String)
    ensures
        r@ == dec_digits(n as nat),
    decreases n,
{
    if n < 10 {
        digit_str(n).to_owned()
    } else {
        let mut s = decimal_string(n / 10);
        s.append(digit_str(n % 10));
        s
    }
}

/// The identifier for counter value `n`: `tab_` and the decimal digits.
pub fn tab_id_string(n: u32) -> (r: String)
    ensures
        r@ == tab_id_chars(n as nat),
{
    proof {
        reveal_strlit("tab_");
        assert("tab_"@ =~= tab_id_prefix());
    }
    let mut s = "tab_".to_owned();
    let num = decimal_string(n);
    s.append(num.as_str());
    s
}

/// The URL for a backend bound to `port` on loopback.
pub fn url_string(port: u16) -> (r: String)
    ensures
        r@ == url_chars(port),
{
    proof {
        reveal_strlit("http://127.0.0.1:");
        assert("http://127.0.0.1:"@ =~= url_prefix());
    }
    let mut s = "http://127.0.0.1:".to_owned();
    let num = decimal_string(port as u32);
    s.append(num.as_str());
    s
}

/// The suffix of `s` after the last occurrence of `c`; all of `s` when `c`
/// does not occur; empty when `s` ends with `c`.
pub open spec fn suffix_after_last(s: Seq<char>, c: char) -> Seq<char>
    decreases s.len(),
{
    if s.len() == 0 {
        s
    } else if s.last() == c {
        Seq::empty()
    } else {
        suffix_after_last(s.drop_last(), c) + seq![s.last()]
    }
}

/// Relies on str::rsplit_once: it splits at the last occurrence of the
/// separator and returns the part after it, or `None` exactly when the
/// separator does not occur in the string.
#[verifier::external_body]
pub(crate) fn suffix_after_last_string(s: &String, c: char) -> (r: String)
    ensures
        r@ == suffix_after_last(s@, c),
{
    match s.rsplit_once(c) {
        Some((_, tail)) => tail.to_owned(),
        None => s.clone(),
    }
}

/// The name shown for a path in the tab list: its final component.
pub open spec fn display_name_of(path: Seq<char>) -> Seq<char> {
    suffix_after_last(path, '/')
}

/// The final component of `path`, for display in the tab list.
pub fn display_name(path: &String) -> (r: String)
    ensures
        r@ == display_name_of(path@),
{
    suffix_after_last_string(path, '/')
}

} // verus!
