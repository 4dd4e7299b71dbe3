//! A verified core for a sneakernet bundle-transport daemon: removable media
//! are marked as file carriers, and a ledger file on each carrier records
//! which DTN nodes have used it, so that the next node knows whom to contact.

pub mod daemon;
pub mod error;
pub mod hierarchy;
pub mod init;
pub mod interface_map;
pub mod register;
pub mod unregister;
pub mod watcher;

use vstd::prelude::*;
use vstd::string::StringExecFns;

verus! {

/// The character of one decimal digit.
pub open spec fn spec_digit(d: nat) -> char {
    if d == 0 {
        '0'
    } else if d == 1 {
        '1'
    } else if d == 2 {
        '2'
    } else if d == 3 {
        '3'
    } else if d == 4 {
        '4'
    } else if d == 5 {
        '5'
    } else if d == 6 {
        '6'
    } else if d == 7 {
        '7'
    } else if d == 8 {
        '8'
    } else {
        '9'
    }
}

/// The decimal notation of a number, most significant digit first, without
/// leading zeroes (a single zero for zero itself).
pub open spec fn spec_decimal(n: nat) -> Seq<char>
    decreases n,
{
    if n < 10 {
        seq![spec_digit(n)]
    } else {
        spec_decimal(n / 10).push(spec_digit(n % 10))
    }
}

/// One decimal digit as a string slice.
fn digit_str(d: u32) -> (r: &'static str)
    requires
        d < 10,
    ensures
        r@ == seq![spec_digit(d as nat)],
{
    match d {
        0 => {
            proof {
                reveal_strlit("0");
            }
            "0"
        },
        1 => {
            proof {
                reveal_strlit("1");
            }
            "1"
        },
        2 => {
            proof {
                reveal_strlit("2");
            }
            "2"
        },
        3 => {
            proof {
                reveal_strlit("3");
            }
            "3"
        },
        4 => {
            proof {
                reveal_strlit("4");
            }
            "4"
        },
        5 => {
            proof {
                reveal_strlit("5");
            }
            "5"
        },
        6 => {
            proof {
                reveal_strlit("6");
            }
            "6"
        },
        7 => {
            proof {
                reveal_strlit("7");
            }
            "7"
        },
        8 => {
            proof {
                reveal_strlit("8");
            }
            "8"
        },
        _ => {
            proof {
                reveal_strlit("9");
            }
            "9"
        },
    }
}

/// A number in decimal notation.
pub fn u32_decimal(n: u32) -> (r: String)
    ensures
        r@ == spec_decimal(n as nat),
    decreases n,
{
    let digit = digit_str(n % 10);
    if n < 10 {
        digit.to_owned()
    } else {
        let mut r = u32_decimal(n / 10);
        r.append(digit);
        proof {
            assert(r@ =~= spec_decimal((n / 10) as nat).push(spec_digit((n % 10) as nat)));
        }
        r
    }
}

/// The default node agent socket path of the user with the given id.
pub fn default_path(uid: u32) -> (r: String)
    ensures
        r@ == "/run/user/"@ + spec_decimal(uid as nat) + "/archipel-core/archipel-core.socket"@,
{
    let mut r = "/run/user/".to_owned();
    let decimal = u32_decimal(uid);
    r.append(decimal.as_str());
    r.append("/archipel-core/archipel-core.socket");
    r
}

} // verus!
