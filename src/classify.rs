//! Keyword classification of extracted text into a document type.
use vstd::prelude::*;
use crate::text::{chars_of, contains, lower_of, lowercase, str_contains};

verus! {

/// The document type that the keyword rules give to an already lowercased
/// text. The rules are tried in order and the first that matches wins.
pub open spec fn classify_lowered_spec(l: Seq<char>) -> Seq<char> {
    if contains(l, "invoice"@) || contains(l, "faktura"@) || contains(l, "bill to"@) || contains(
        l,
        "invoice number"@,
    ) || contains(l, "inv no"@) {
        "invoice"@
    } else if contains(l, "bank statement"@) || contains(l, "account statement"@) || contains(
        l,
        "transaction history"@,
    ) || (contains(l, "balance"@) && (contains(l, "debit"@) || contains(l, "credit"@))) {
        "bank_statement"@
    } else if contains(l, "payment"@) || contains(l, "paid"@) || contains(l, "amount due"@) {
        "payment"@
    } else if contains(l, "receipt"@) || contains(l, "cash register"@) || (contains(l, "total"@)
        && contains(l, "tax"@)) {
        "receipt"@
    } else {
        "other"@
    }
}

/// The document type of a text, matched without regard to case.
pub open spec fn classify_spec(text: Seq<char>) -> Seq<char> {
    classify_lowered_spec(lower_of(text))
}

/// Classify an already lowercased text.
pub fn classify_lowered(lower: &str) -> (r: &'static str)
    ensures
        r@ == classify_lowered_spec(lower@),
{
    let l = chars_of(lower);
    if str_contains(&l, "invoice") || str_contains(&l, "faktura") || str_contains(&l, "bill to")
        || str_contains(&l, "invoice number") || str_contains(&l, "inv no") {
        "invoice"
    } else if str_contains(&l, "bank statement") || str_contains(&l, "account statement")
        || str_contains(&l, "transaction history") || (str_contains(&l, "balance") && (
    str_contains(&l, "debit") || str_contains(&l, "credit"))) {
        "bank_statement"
    } else if str_contains(&l, "payment") || str_contains(&l, "paid") || str_contains(
        &l,
        "amount due",
    ) {
        "payment"
    } else if str_contains(&l, "receipt") || str_contains(&l, "cash register") || (str_contains(
        &l,
        "total",
    ) && str_contains(&l, "tax")) {
        "receipt"
    } else {
        "other"
    }
}

/// Classify extracted text into one of `invoice`, `bank_statement`,
/// `payment`, `receipt` or `other`.
pub fn classify_document_type(text: &str) -> (r: &'static str)
    ensures
        r@ == classify_spec(text@),
{
    let lower = lowercase(text);
    classify_lowered(lower.as_str())
}

} // verus!
