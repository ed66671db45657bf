//! Picking a beacon node of a local test network at random.

use rand::Rng;
use vstd::prelude::*;

verus! {

/// The character of decimal digit `d`.
pub open spec fn digit_char(d: nat) -> char {
    (48 + d) as char
}

/// The decimal digits of `n`, most significant first.
pub open spec fn nat_to_decimal(n: nat) -> Seq<char>
    decreases n,
{
    if n < 10 {
        seq![digit_char(n)]
    } else {
        nat_to_decimal(n / 10).push(digit_char(n % 10))
    }
}

/// The decimal form of `x`: a '-' for a negative number, then the digits.
pub open spec fn int_to_decimal(x: int) -> Seq<char> {
    if x < 0 {
        seq!['-'] + nat_to_decimal((-x) as nat)
    } else {
        nat_to_decimal(x as nat)
    }
}

/// Calls `rand::thread_rng().gen_range(low..high)`. Trusted: a number in
/// `low .. high`, which must not be empty (it panics on an empty range);
/// which number comes back depends on the thread's random generator.
#[verifier::external_body]
fn random_in_range(low: i16, high: i16) -> (r: i16)
    requires
        low < high,
    ensures
        low <= r < high,
{
    rand::thread_rng().gen_range(low..high)
}

/// The one-character text of decimal digit `d`.
fn digit_str(d: u16) -> (s: &'static str)
    requires
        d < 10,
    ensures
        s@ == seq![digit_char(d as nat)],
{
    match d {
        0 => {
            proof {
                reveal_strlit("0");
            }
            "0"
        },
        1 => {
            proof {
                reveal_strlit("1");
            }
            "1"
        },
        2 => {
            proof {
                reveal_strlit("2");
            }
            "2"
        },
        3 => {
            proof {
                reveal_strlit("3");
            }
            "3"
        },
        4 => {
            proof {
                reveal_strlit("4");
            }
            "4"
        },
        5 => {
            proof {
                reveal_strlit("5");
            }
            "5"
        },
        6 => {
            proof {
                reveal_strlit("6");
            }
            "6"
        },
        7 => {
            proof {
                reveal_strlit("7");
            }
            "7"
        },
        8 => {
            proof {
                reveal_strlit("8");
            }
            "8"
        },
        _ => {
            proof {
                reveal_strlit("9");
            }
            "9"
        },
    }
}

/// The decimal digits of `n`, most significant first.
fn u16_to_decimal(n: u16) -> (s: String)
    ensures
        s@ == nat_to_decimal(n as nat),
    decreases n,
{
    if n < 10 {
        String::from_str(digit_str(n))
    } else {
        let mut s = u16_to_decimal(n / 10);
        let last = digit_str(n % 10);
        s.append(last);
        assert(s@ =~= nat_to_decimal((n / 10) as nat).push(digit_char((n % 10) as nat)));
        s
    }
}

/// The decimal form of `x`, as `Display` writes an integer: a '-' before
/// a negative number, then its digits.
pub fn i16_to_decimal(x: i16) -> (s: String)
    ensures
        s@ == int_to_decimal(x as int),
{
    if x < 0 {
        let magnitude: u16 = (0i32 - x as i32) as u16;
        proof {
            reveal_strlit("-");
        }
        let s = String::from_str("-");
        s.concat(u16_to_decimal(magnitude).as_str())
    } else {
        u16_to_decimal(x as u16)
    }
}

/// The id of node `node_number`: its port, `base_port + node_number`, in
/// decimal, with the number.
pub fn node_id_of(node_number: i16, base_port: i16) -> (out: (String, i16))
    requires
        i16::MIN <= base_port + node_number <= i16::MAX,
    ensures
        out.0@ == int_to_decimal(base_port + node_number),
        out.1 == node_number,
{
    let id: i16 = base_port + node_number;
    let node_id = i16_to_decimal(id);
    (node_id, node_number)
}

/// Picks a node number at random in `1 .. n_nodes` and returns the port
/// of that node, `base_port + number`, in decimal, with the number.
pub fn get_random_node_id(n_nodes: i16, base_port: i16) -> (out: (String, i16))
    requires
        n_nodes > 1,
        base_port + n_nodes - 1 <= i16::MAX,
    ensures
        1 <= out.1 < n_nodes,
        out.0@ == int_to_decimal(base_port + out.1),
{
    let node_number: i16 = random_in_range(1, n_nodes);
    node_id_of(node_number, base_port)
}

} // verus!
