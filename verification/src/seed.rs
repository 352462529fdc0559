//! Parsing of an optional seed snapshot: a tabular text with columns
//! `client, available, held, total, locked`, one account per line, with a
//! header line that is skipped. Lines that do not parse are dropped.

use vstd::prelude::*;
use crate::account::Account;
use crate::numbers::{parse_signed, parse_signed_spec, parse_uint, parse_uint_spec};
use crate::text::{chars_eq_str, split_char, split_on, strip_whitespace, strip_ws, to_chars};

verus! {

/// The account denoted by one snapshot line, if any: after whitespace
/// stripping, exactly five comma-separated fields — client id, three
/// signed fixed-point balances, and `true` or `false` for the lock flag.
pub open spec fn parse_account_row(line: Seq<char>) -> Option<Account> {
    let f = split_char(strip_ws(line), ',');
    if f.len() != 5 {
        None
    } else {
        match (parse_uint_spec(f[0], u16::MAX as u64), parse_signed_spec(f[1]), parse_signed_spec(
            f[2],
        ), parse_signed_spec(f[3])) {
            (Some(client), Some(available), Some(held), Some(total)) => {
                if f[4] == "true"@ {
                    Some(
                        Account {
                            client: client as u16,
                            available,
                            held,
                            total,
                            locked: true,
                        },
                    )
                } else if f[4] == "false"@ {
                    Some(
                        Account {
                            client: client as u16,
                            available,
                            held,
                            total,
                            locked: false,
                        },
                    )
                } else {
                    None
                }
            },
            _ => None,
        }
    }
}

/// The accounts denoted by a sequence of snapshot lines, in order, with
/// unparsable lines dropped.
pub open spec fn rows_to_accounts(rows: Seq<Seq<char>>) -> Seq<Account>
    decreases rows.len(),
{
    if rows.len() == 0 {
        Seq::empty()
    } else {
        let rest = rows_to_accounts(rows.subrange(1, rows.len() as int));
        match parse_account_row(rows[0]) {
            Some(a) => seq![a] + rest,
            None => rest,
        }
    }
}

/// The accounts denoted by a whole snapshot text: its lines after the
/// first (the header), each parsed as a snapshot row.
pub open spec fn parse_accounts_spec(text: Seq<char>) -> Seq<Account> {
    let ls = split_char(text, '\n');
    if ls.len() >= 1 {
        rows_to_accounts(ls.subrange(1, ls.len() as int))
    } else {
        Seq::empty()
    }
}

/// Parses one snapshot line into an account, or nothing when the line is
/// malformed in any way.
pub fn parse_row(v: &Vec<char>) -> (r: Option<Account>)
    ensures
        r == parse_account_row(v@),
{
    let stripped = strip_whitespace(v);
    let f = split_on(&stripped, ',');
    let ghost fs = split_char(strip_ws(v@), ',');
    if f.len() != 5 {
        return None;
    }
    proof {
        assert(f@[0].deep_view() =~= f@[0]@);
        assert(f@[1].deep_view() =~= f@[1]@);
        assert(f@[2].deep_view() =~= f@[2]@);
        assert(f@[3].deep_view() =~= f@[3]@);
        assert(f@[4].deep_view() =~= f@[4]@);
        assert(fs[0] == f@[0]@);
        assert(fs[1] == f@[1]@);
        assert(fs[2] == f@[2]@);
        assert(fs[3] == f@[3]@);
        assert(fs[4] == f@[4]@);
    }
    let client: u16 = match parse_uint(&f[0], 65535) {
        Some(c) => c as u16,
        None => {
            return None;
        },
    };
    let available: i64 = match parse_signed(&f[1]) {
        Some(x) => x,
        None => {
            return None;
        },
    };
    let held: i64 = match parse_signed(&f[2]) {
        Some(x) => x,
        None => {
            return None;
        },
    };
    let total: i64 = match parse_signed(&f[3]) {
        Some(x) => x,
        None => {
            return None;
        },
    };
    if chars_eq_str(&f[4], "true") {
        Some(Account { client, available, held, total, locked: true })
    } else if chars_eq_str(&f[4], "false") {
        Some(Account { client, available, held, total, locked: false })
    } else {
        None
    }
}

/// Creates the seeded ledger from a snapshot text: the header line is
/// skipped and every remaining line that parses contributes one account,
/// in order.
pub fn parse_accounts_csv(csv: String) -> (r: Vec<Account>)
    ensures
        r@ == parse_accounts_spec(csv@),
{
    let chars = to_chars(csv.as_str());
    let lines = split_on(&chars, '\n');
    let ghost ls = split_char(csv@, '\n');
    let mut out: Vec<Account> = Vec::new();
    let n = lines.len();
    let mut i: usize = 1;
    proof {
        assert(lines.deep_view().len() == n);
        assert(ls.subrange(1, n as int) =~~= lines.deep_view().subrange(1, n as int));
        assert(out@ + rows_to_accounts(ls.subrange(1, n as int)) =~= rows_to_accounts(
            ls.subrange(1, n as int),
        ));
    }
    while i < n
        invariant
            1 <= i <= n,
            n == lines@.len(),
            lines.deep_view().len() == n,
            lines.deep_view() == ls,
            n >= 1,
            parse_accounts_spec(csv@) == out@ + rows_to_accounts(ls.subrange(i as int, n as int)),
        decreases n - i,
    {
        proof {
            let tail = ls.subrange(i as int, n as int);
            assert(tail[0] == ls[i as int]);
            assert(lines@[i as int].deep_view() =~= lines@[i as int]@);
            assert(ls[i as int] == lines@[i as int]@);
            assert(tail.subrange(1, tail.len() as int) =~~= ls.subrange(i as int + 1, n as int));
        }
        if let Some(a) = parse_row(&lines[i]) {
            out.push(a);
            proof {
                assert(out@ + rows_to_accounts(ls.subrange(i as int + 1, n as int))
                    =~= parse_accounts_spec(csv@));
            }
        }
        i += 1;
    }
    proof {
        assert(rows_to_accounts(ls.subrange(n as int, n as int)) =~= Seq::<Account>::empty());
        assert(out@ + Seq::<Account>::empty() =~= out@);
    }
    out
}

} // verus!
