//! Transactions and the record parser: one raw text record becomes a
//! validated, typed transaction, or is rejected.
//!
//! A record is four comma-separated fields — type tag, client id,
//! transaction id, amount — after every whitespace character has been
//! removed. Extra fields are ignored. The amount field matters only for
//! `deposit` and `withdrawal` records and is a non-negative fixed-point
//! decimal; for the dispute family it is ignored entirely.

use vstd::prelude::*;
use crate::numbers::{parse_amount, parse_amount_spec, parse_uint, parse_uint_spec};
use crate::text::{chars_eq_str, split_char, split_on, strip_whitespace, strip_ws, to_chars};

verus! {

/// The kind of a transaction. Deposits and withdrawals carry their
/// amount in ten-thousandths; the dispute family recovers the amount
/// from the referenced transaction.
#[derive(Clone, Copy, Debug, PartialEq, Eq, Structural)]
pub enum TransactionType {
    Deposit(i64),
    WithDrawal(i64),
    Dispute,
    Resolve,
    ChargeBack,
}

/// One parsed transaction: the client it targets, its identifier, and
/// its kind.
#[derive(Clone, Copy, Debug, PartialEq, Eq, Structural)]
pub struct Transaction {
    pub client: u16,
    pub tx: u32,
    pub tx_type: TransactionType,
}

/// The transaction denoted by one raw record, if any: whitespace is
/// stripped, the record is split on commas into at least four fields,
/// the tag must be one of the five lowercase type names, the client and
/// transaction ids must be unsigned integers of their width, and for
/// `deposit` and `withdrawal` the amount field must be a non-negative
/// decimal that fits. Anything else parses to nothing.
pub open spec fn parse_record(line: Seq<char>) -> Option<Transaction> {
    let fields = split_char(strip_ws(line), ',');
    if fields.len() < 4 {
        None
    } else {
        match (parse_uint_spec(fields[1], u16::MAX as u64), parse_uint_spec(
            fields[2],
            u32::MAX as u64,
        )) {
            (Some(client), Some(tx)) => {
                let client = client as u16;
                let tx = tx as u32;
                if fields[0] == "deposit"@ {
                    match parse_amount_spec(fields[3]) {
                        Some(amount) => Some(
                            Transaction { client, tx, tx_type: TransactionType::Deposit(amount) },
                        ),
                        None => None,
                    }
                } else if fields[0] == "withdrawal"@ {
                    match parse_amount_spec(fields[3]) {
                        Some(amount) => Some(
                            Transaction {
                                client,
                                tx,
                                tx_type: TransactionType::WithDrawal(amount),
                            },
                        ),
                        None => None,
                    }
                } else if fields[0] == "dispute"@ {
                    Some(Transaction { client, tx, tx_type: TransactionType::Dispute })
                } else if fields[0] == "resolve"@ {
                    Some(Transaction { client, tx, tx_type: TransactionType::Resolve })
                } else if fields[0] == "chargeback"@ {
                    Some(Transaction { client, tx, tx_type: TransactionType::ChargeBack })
                } else {
                    None
                }
            },
            _ => None,
        }
    }
}

/// A record that parses never carries a negative amount: deposits and
/// withdrawals hold non-negative counts of ten-thousandths.
pub proof fn lemma_parse_record_amount_nonneg(line: Seq<char>)
    ensures
        match parse_record(line) {
            Some(t) => match t.tx_type {
                TransactionType::Deposit(amount) => amount >= 0,
                TransactionType::WithDrawal(amount) => amount >= 0,
                _ => true,
            },
            None => true,
        },
{
    let fields = split_char(strip_ws(line), ',');
    if fields.len() >= 4 {
        let f = fields[3];
        if f.len() > 0 && f[0] == '+' {
            crate::numbers::lemma_amount_of_nonneg(f.subrange(1, f.len() as int));
        } else {
            crate::numbers::lemma_amount_of_nonneg(f);
        }
    }
}

impl Transaction {
    /// Creates a transaction from one raw record, or nothing when the
    /// record is malformed in any way.
    pub fn new(s: String) -> (r: Option<Transaction>)
        ensures
            r == parse_record(s@),
    {
        let chars = to_chars(s.as_str());
        let stripped = strip_whitespace(&chars);
        let fields = split_on(&stripped, ',');
        let ghost fs = split_char(strip_ws(s@), ',');
        proof {
            assert(fields.deep_view().len() == fields@.len());
        }
        if fields.len() < 4 {
            return None;
        }
        proof {
            assert(fields@[0].deep_view() =~= fields@[0]@);
            assert(fields@[1].deep_view() =~= fields@[1]@);
            assert(fields@[2].deep_view() =~= fields@[2]@);
            assert(fields@[3].deep_view() =~= fields@[3]@);
            assert(fs[0] == fields@[0]@);
            assert(fs[1] == fields@[1]@);
            assert(fs[2] == fields@[2]@);
            assert(fs[3] == fields@[3]@);
        }
        let client: u16 = match parse_uint(&fields[1], 65535) {
            Some(c) => c as u16,
            None => {
                return None;
            },
        };
        let tx: u32 = match parse_uint(&fields[2], 4294967295) {
            Some(t) => t as u32,
            None => {
                return None;
            },
        };
        if chars_eq_str(&fields[0], "deposit") {
            match parse_amount(&fields[3]) {
                Some(amount) => Some(
                    Transaction { client, tx, tx_type: TransactionType::Deposit(amount) },
                ),
                None => None,
            }
        } else if chars_eq_str(&fields[0], "withdrawal") {
            match parse_amount(&fields[3]) {
                Some(amount) => Some(
                    Transaction { client, tx, tx_type: TransactionType::WithDrawal(amount) },
                ),
                None => None,
            }
        } else if chars_eq_str(&fields[0], "dispute") {
            Some(Transaction { client, tx, tx_type: TransactionType::Dispute })
        } else if chars_eq_str(&fields[0], "resolve") {
            Some(Transaction { client, tx, tx_type: TransactionType::Resolve })
        } else if chars_eq_str(&fields[0], "chargeback") {
            Some(Transaction { client, tx, tx_type: TransactionType::ChargeBack })
        } else {
            None
        }
    }
}

} // verus!
