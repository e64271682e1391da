//! Prompts sent to the language model: one system prompt per document type
//! with the JSON schema it should fill, and the user prompts for text,
//! page images and the merge of per-page results.
use vstd::prelude::*;
use crate::text::{chars_of, push_all, push_str, string_of};

verus! {

/// The system prompt for a document type.
pub open spec fn system_prompt_of(t: Seq<char>) -> Seq<char> {
    if t == "invoice"@ {
        SYSTEM_INVOICE@
    } else if t == "bank_statement"@ {
        SYSTEM_BANK_STATEMENT@
    } else if t == "payment"@ {
        SYSTEM_PAYMENT@
    } else if t == "receipt"@ {
        SYSTEM_RECEIPT@
    } else {
        SYSTEM_GENERIC@
    }
}

/// The one-line instruction that opens a text prompt.
pub open spec fn text_instruction_of(t: Seq<char>) -> Seq<char> {
    if t == "invoice"@ {
        "Extract the invoice data from the following document text."@
    } else if t == "bank_statement"@ {
        "Extract the bank statement data from the following document text."@
    } else if t == "payment"@ {
        "Extract the payment data from the following document text."@
    } else if t == "receipt"@ {
        "Extract the receipt data from the following document text."@
    } else {
        "Extract all key information from the following document text."@
    }
}

/// The one-line instruction that opens a page-image prompt.
pub open spec fn vision_instruction_of(t: Seq<char>) -> Seq<char> {
    if t == "invoice"@ {
        "Extract the invoice data from this document image."@
    } else if t == "bank_statement"@ {
        "Extract the bank statement data from this document image."@
    } else if t == "payment"@ {
        "Extract the payment data from this document image."@
    } else if t == "receipt"@ {
        "Extract the receipt data from this document image."@
    } else {
        "Extract all key information from this document image."@
    }
}

/// How the merge prompt names a document type.
pub open spec fn merge_label_of(t: Seq<char>) -> Seq<char> {
    if t == "invoice"@ {
        "invoice"@
    } else if t == "bank_statement"@ {
        "bank statement"@
    } else if t == "payment"@ {
        "payment document"@
    } else if t == "receipt"@ {
        "receipt"@
    } else {
        "document"@
    }
}

/// The closing line of every user prompt.
pub const RESPOND_JSON: &'static str = "Respond with a single JSON object only. No explanations.";

/// The user prompt that wraps a document text.
pub open spec fn user_prompt_of(raw_text: Seq<char>, t: Seq<char>) -> Seq<char> {
    text_instruction_of(t) + "\n\n---\nDOCUMENT TEXT:\n---\n"@ + raw_text + "\n---\n\n"@
        + RESPOND_JSON@
}

/// The decimal digit for `d < 10`.
pub open spec fn digit_of(d: nat) -> char {
    if d == 0 {
        '0'
    } else if d == 1 {
        '1'
    } else if d == 2 {
        '2'
    } else if d == 3 {
        '3'
    } else if d == 4 {
        '4'
    } else if d == 5 {
        '5'
    } else if d == 6 {
        '6'
    } else if d == 7 {
        '7'
    } else if d == 8 {
        '8'
    } else {
        '9'
    }
}

/// The decimal notation of a natural number.
pub open spec fn decimal_of(n: nat) -> Seq<char>
    decreases n,
{
    if n < 10 {
        seq![digit_of(n)]
    } else {
        decimal_of(n / 10).push(digit_of(n % 10))
    }
}

/// The user prompt for one page image out of `total` pages.
pub open spec fn vision_user_prompt_of(t: Seq<char>, page: nat, total: nat) -> Seq<char> {
    if total > 1 {
        vision_instruction_of(t) + "\n\nThis is page "@ + decimal_of(page) + " of "@ + decimal_of(
            total,
        ) + ". Extract all visible data from this page. "@ + RESPOND_JSON@
    } else {
        vision_instruction_of(t) + "\n\n"@ + RESPOND_JSON@
    }
}

/// The per-page sections of the merge prompt, from page `k + 1` on.
pub open spec fn page_sections(pages: Seq<Seq<char>>, k: nat) -> Seq<char>
    decreases pages.len() - k,
{
    if k >= pages.len() {
        Seq::empty()
    } else {
        let sep = if k == 0 { Seq::empty() } else { "\n\n"@ };
        sep + "Page "@ + decimal_of(k + 1) + ":\n"@ + pages[k as int] + page_sections(pages, k + 1)
    }
}

/// The prompt that asks the text model to merge per-page JSON results, each
/// given as its pretty-printed text.
pub open spec fn merge_prompt_of(t: Seq<char>, pages: Seq<Seq<char>>) -> Seq<char> {
    MERGE_INTRO_A@ + merge_label_of(t) + MERGE_INTRO_B@ + page_sections(pages, 0) + "\n\n"@
        + "Respond with a single merged JSON object only. No explanations."@
}

/// The merge prompt up to the document label.
pub const MERGE_INTRO_A: &'static str =
    "The following JSON objects were extracted from individual pages of a ";

/// The merge prompt from the document label up to the page results.
pub const MERGE_INTRO_B: &'static str = ". Merge them into a single coherent JSON object.\n\nRules:\n- Combine line_items/transactions/items from all pages into one array\n- Use header fields (vendor, dates, totals) from whichever page has them\n- If totals appear on multiple pages, prefer the final page's values\n- Remove duplicates\n- Keep the same JSON schema as the individual pages\n\n";

/// The system prompt for a document type.
pub fn system_prompt(document_type: &str) -> (r: String)
    ensures
        r@ == system_prompt_of(document_type@),
{
    let t = chars_of(document_type);
    let p = if crate::text::is_text(&t, "invoice") {
        SYSTEM_INVOICE
    } else if crate::text::is_text(&t, "bank_statement") {
        SYSTEM_BANK_STATEMENT
    } else if crate::text::is_text(&t, "payment") {
        SYSTEM_PAYMENT
    } else if crate::text::is_text(&t, "receipt") {
        SYSTEM_RECEIPT
    } else {
        SYSTEM_GENERIC
    };
    string_of(&chars_of(p))
}

fn text_instruction(document_type: &str) -> (r: &'static str)
    ensures
        r@ == text_instruction_of(document_type@),
{
    let t = chars_of(document_type);
    if crate::text::is_text(&t, "invoice") {
        "Extract the invoice data from the following document text."
    } else if crate::text::is_text(&t, "bank_statement") {
        "Extract the bank statement data from the following document text."
    } else if crate::text::is_text(&t, "payment") {
        "Extract the payment data from the following document text."
    } else if crate::text::is_text(&t, "receipt") {
        "Extract the receipt data from the following document text."
    } else {
        "Extract all key information from the following document text."
    }
}

fn vision_instruction(document_type: &str) -> (r: &'static str)
    ensures
        r@ == vision_instruction_of(document_type@),
{
    let t = chars_of(document_type);
    if crate::text::is_text(&t, "invoice") {
        "Extract the invoice data from this document image."
    } else if crate::text::is_text(&t, "bank_statement") {
        "Extract the bank statement data from this document image."
    } else if crate::text::is_text(&t, "payment") {
        "Extract the payment data from this document image."
    } else if crate::text::is_text(&t, "receipt") {
        "Extract the receipt data from this document image."
    } else {
        "Extract all key information from this document image."
    }
}

fn merge_label(document_type: &str) -> (r: &'static str)
    ensures
        r@ == merge_label_of(document_type@),
{
    let t = chars_of(document_type);
    if crate::text::is_text(&t, "invoice") {
        "invoice"
    } else if crate::text::is_text(&t, "bank_statement") {
        "bank statement"
    } else if crate::text::is_text(&t, "payment") {
        "payment document"
    } else if crate::text::is_text(&t, "receipt") {
        "receipt"
    } else {
        "document"
    }
}

/// The decimal digit for `d < 10`.
pub fn digit(d: usize) -> (r: char)
    requires
        d < 10,
    ensures
        r == digit_of(d as nat),
{
    if d == 0 {
        '0'
    } else if d == 1 {
        '1'
    } else if d == 2 {
        '2'
    } else if d == 3 {
        '3'
    } else if d == 4 {
        '4'
    } else if d == 5 {
        '5'
    } else if d == 6 {
        '6'
    } else if d == 7 {
        '7'
    } else if d == 8 {
        '8'
    } else {
        '9'
    }
}

/// Appends the decimal notation of `n` to `out`.
pub fn push_decimal(out: &mut Vec<char>, n: u64)
    ensures
        final(out)@ == old(out)@ + decimal_of(n as nat),
    decreases n,
{
    if n < 10 {
        out.push(digit(n as usize));
        assert(final(out)@ =~= old(out)@ + decimal_of(n as nat));
    } else {
        push_decimal(out, n / 10);
        out.push(digit((n % 10) as usize));
        assert(out@ =~= old(out)@ + decimal_of(n as nat));
    }
}

/// The user prompt that wraps a document text.
pub fn user_prompt(raw_text: &str, document_type: &str) -> (r: String)
    ensures
        r@ == user_prompt_of(raw_text@, document_type@),
{
    let mut out: Vec<char> = Vec::new();
    push_str(&mut out, text_instruction(document_type));
    push_str(&mut out, "\n\n---\nDOCUMENT TEXT:\n---\n");
    push_str(&mut out, raw_text);
    push_str(&mut out, "\n---\n\n");
    push_str(&mut out, RESPOND_JSON);
    assert(out@ =~= user_prompt_of(raw_text@, document_type@));
    string_of(&out)
}

/// The user prompt for page `page_num` of `total_pages` page images.
pub fn vision_user_prompt(document_type: &str, page_num: usize, total_pages: usize) -> (r: String)
    ensures
        r@ == vision_user_prompt_of(document_type@, page_num as nat, total_pages as nat),
{
    let mut out: Vec<char> = Vec::new();
    push_str(&mut out, vision_instruction(document_type));
    if total_pages > 1 {
        push_str(&mut out, "\n\nThis is page ");
        push_decimal(&mut out, page_num as u64);
        push_str(&mut out, " of ");
        push_decimal(&mut out, total_pages as u64);
        push_str(&mut out, ". Extract all visible data from this page. ");
    } else {
        push_str(&mut out, "\n\n");
    }
    push_str(&mut out, RESPOND_JSON);
    assert(out@ =~= vision_user_prompt_of(document_type@, page_num as nat, total_pages as nat));
    string_of(&out)
}

/// The merge prompt over per-page results given as pretty-printed JSON texts.
pub fn merge_pages_prompt(document_type: &str, page_texts: &Vec<String>) -> (r: String)
    requires
        page_texts@.len() < usize::MAX,
    ensures
        r@ == merge_prompt_of(document_type@, page_texts@.map_values(|p: String| p@)),
{
    let ghost pages = page_texts@.map_values(|p: String| p@);
    let mut out: Vec<char> = Vec::new();
    push_str(&mut out, MERGE_INTRO_A);
    push_str(&mut out, merge_label(document_type));
    push_str(&mut out, MERGE_INTRO_B);
    let ghost head = out@;
    let mut k: usize = 0;
    while k < page_texts.len()
        invariant
            k <= page_texts@.len() < usize::MAX,
            pages == page_texts@.map_values(|p: String| p@),
            head + page_sections(pages, 0) == out@ + page_sections(pages, k as nat),
        decreases page_texts@.len() - k,
    {
        let ghost before = out@;
        if k > 0 {
            push_str(&mut out, "\n\n");
        }
        push_str(&mut out, "Page ");
        push_decimal(&mut out, (k + 1) as u64);
        push_str(&mut out, ":\n");
        let page = chars_of(page_texts[k].as_str());
        push_all(&mut out, &page);
        proof {
            let sep: Seq<char> = if k == 0 { Seq::empty() } else { "\n\n"@ };
            assert(pages[k as int] == page_texts@[k as int]@);
            assert(page_sections(pages, k as nat) == sep + "Page "@ + decimal_of((k + 1) as nat)
                + ":\n"@ + pages[k as int] + page_sections(pages, (k + 1) as nat));
            assert(out@ =~= before + sep + "Page "@ + decimal_of((k + 1) as nat) + ":\n"@
                + pages[k as int]);
        }
        k = k + 1;
    }
    assert(page_sections(pages, k as nat) =~= Seq::empty());
    push_str(&mut out, "\n\n");
    push_str(&mut out, "Respond with a single merged JSON object only. No explanations.");
    assert(out@ =~= merge_prompt_of(document_type@, pages));
    string_of(&out)
}

pub const SYSTEM_INVOICE: &'static str = r#"You are a document extraction assistant. Extract structured data from invoice documents and return valid JSON.

Return a JSON object with these fields:
{
  "document_type": "invoice",
  "vendor_name": "string",
  "vendor_address": "string or null",
  "vendor_tax_id": "string or null",
  "buyer_name": "string or null",
  "buyer_address": "string or null",
  "buyer_tax_id": "string or null",
  "invoice_number": "string",
  "invoice_date": "YYYY-MM-DD",
  "due_date": "YYYY-MM-DD or null",
  "currency": "3-letter code",
  "subtotal": number or null,
  "tax_amount": number or null,
  "tax_rate": "percentage string or null",
  "total_amount": number,
  "line_items": [
    {
      "description": "string",
      "quantity": number or null,
      "unit_price": number or null,
      "amount": number
    }
  ],
  "payment_terms": "string or null",
  "notes": "string or null",
  "confidence": 0.0-1.0
}

Rules:
- Use null for fields you cannot determine
- Dates in YYYY-MM-DD format
- Amounts as numbers (not strings)
- confidence: your certainty about the extraction accuracy (0.0 to 1.0)
- Return ONLY the JSON object, no markdown, no explanations"#;

pub const SYSTEM_BANK_STATEMENT: &'static str = r#"You are a document extraction assistant. Extract structured data from bank statements and return valid JSON.

Return a JSON object with these fields:
{
  "document_type": "bank_statement",
  "bank_name": "string",
  "account_holder": "string or null",
  "account_number": "string (last 4 digits only for security)",
  "statement_period_start": "YYYY-MM-DD",
  "statement_period_end": "YYYY-MM-DD",
  "currency": "3-letter code",
  "opening_balance": number,
  "closing_balance": number,
  "total_deposits": number or null,
  "total_withdrawals": number or null,
  "transactions": [
    {
      "date": "YYYY-MM-DD",
      "description": "string",
      "amount": number,
      "type": "credit" or "debit",
      "balance": number or null
    }
  ],
  "confidence": 0.0-1.0
}

Rules:
- Use null for fields you cannot determine
- Dates in YYYY-MM-DD format
- Amounts as numbers (positive for credits, negative for debits in the amount field)
- Only include last 4 digits of account numbers
- confidence: your certainty about the extraction accuracy (0.0 to 1.0)
- Return ONLY the JSON object, no markdown, no explanations"#;

pub const SYSTEM_PAYMENT: &'static str = r#"You are a document extraction assistant. Extract structured data from payment documents and return valid JSON.

Return a JSON object with these fields:
{
  "document_type": "payment",
  "payer_name": "string",
  "payee_name": "string",
  "payment_date": "YYYY-MM-DD",
  "payment_method": "string (bank_transfer, credit_card, cash, check, etc.)",
  "reference_number": "string or null",
  "invoice_reference": "string or null",
  "currency": "3-letter code",
  "amount": number,
  "status": "completed, pending, or failed",
  "notes": "string or null",
  "confidence": 0.0-1.0
}

Rules:
- Use null for fields you cannot determine
- Dates in YYYY-MM-DD format
- Amounts as numbers (not strings)
- confidence: your certainty about the extraction accuracy (0.0 to 1.0)
- Return ONLY the JSON object, no markdown, no explanations"#;

pub const SYSTEM_RECEIPT: &'static str = r#"You are a document extraction assistant. Extract structured data from receipts and return valid JSON.

Return a JSON object with these fields:
{
  "document_type": "receipt",
  "merchant_name": "string",
  "merchant_address": "string or null",
  "receipt_number": "string or null",
  "date": "YYYY-MM-DD",
  "time": "HH:MM or null",
  "currency": "3-letter code",
  "items": [
    {
      "description": "string",
      "quantity": number or null,
      "unit_price": number or null,
      "amount": number
    }
  ],
  "subtotal": number or null,
  "tax_amount": number or null,
  "total_amount": number,
  "payment_method": "string or null",
  "confidence": 0.0-1.0
}

Rules:
- Use null for fields you cannot determine
- Dates in YYYY-MM-DD format
- Amounts as numbers (not strings)
- confidence: your certainty about the extraction accuracy (0.0 to 1.0)
- Return ONLY the JSON object, no markdown, no explanations"#;

pub const SYSTEM_GENERIC: &'static str = r#"You are a document extraction assistant. Extract all key structured data from documents and return valid JSON.

Analyze the document and determine its type, then extract relevant fields.

Return a JSON object with these fields:
{
  "document_type": "string (invoice, bank_statement, payment, receipt, contract, report, letter, or other)",
  "title": "string or null",
  "date": "YYYY-MM-DD or null",
  "parties": ["list of people/organizations mentioned"],
  "amounts": [
    {
      "label": "string",
      "value": number,
      "currency": "3-letter code or null"
    }
  ],
  "key_fields": {
    "field_name": "value"
  },
  "summary": "brief one-sentence summary of the document",
  "confidence": 0.0-1.0
}

Rules:
- Use null for fields you cannot determine
- Dates in YYYY-MM-DD format
- Amounts as numbers (not strings)
- key_fields: extract any important name-value pairs not covered above
- confidence: your certainty about the extraction accuracy (0.0 to 1.0)
- Return ONLY the JSON object, no markdown, no explanations"#;

} // verus!
