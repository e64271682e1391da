//! The store: batches, documents and extractions, with the operations the
//! pipeline and the API use. Rows keep the order in which they were created;
//! every lookup, update and delete goes by id (or by batch id), and a
//! cascade delete is expressed by the caller as extractions, then documents,
//! then the batch.
use vstd::prelude::*;
use crate::confidence::Confidence;
use crate::model::{Batch, Document, Extraction};
use crate::text::{chars_of, same_chars, string_of};

verus! {

/// Relies on serde_json's derived `Clone` for `Value`: the copy is the same value.
pub assume_specification[ <serde_json::Value as Clone>::clone ](v: &serde_json::Value) -> (r:
    serde_json::Value)
    ensures
        r == *v,
;

/// Relies on `nanoid::format` with the URL-safe alphabet and the default
/// random source: a fresh id of 21 characters.
#[verifier::external_body]
fn fresh_id() -> (r: String)
    ensures
        r@.len() == 21,
{
    nanoid::format(nanoid::rngs::default, &nanoid::alphabet::SAFE, 21)
}

/// Relies on `chrono::Utc::now` (as RFC 3339 text): the current time.
#[verifier::external_body]
fn now_timestamp() -> (r: String) {
    chrono::Utc::now().to_rfc3339()
}

/// Why a store operation failed.
#[derive(Debug, Clone, Copy, PartialEq, Eq, Structural)]
pub enum StoreError {
    /// No row has the id that was looked up.
    NotFound,
    /// Any other failure; here: a fresh id that is already taken.
    Storage,
}

/// All persisted rows.
pub struct Store {
    pub batches: Vec<Batch>,
    pub documents: Vec<Document>,
    pub extractions: Vec<Extraction>,
}

/// No two batches share an id.
pub open spec fn batch_ids_unique(rows: Seq<Batch>) -> bool {
    forall|i: int, j: int|
        0 <= i < j < rows.len() ==> (#[trigger] rows[i]).id@ != (#[trigger] rows[j]).id@
}

impl Store {
    /// The store's invariant: batch ids are unique.
    pub open spec fn wf(&self) -> bool {
        batch_ids_unique(self.batches@)
    }

    /// An empty store.
    pub fn new() -> (r: Store)
        ensures
            r.wf(),
            r.batches@.len() == 0,
            r.documents@.len() == 0,
            r.extractions@.len() == 0,
    {
        Store { batches: Vec::new(), documents: Vec::new(), extractions: Vec::new() }
    }
}

/// A copy of an optional text.
fn copy_opt(o: &Option<String>) -> (r: Option<String>)
    ensures
        r == *o,
{
    match o {
        Some(s) => Some(s.clone()),
        None => None,
    }
}

fn copy_batch(b: &Batch) -> (r: Batch)
    ensures
        r == *b,
{
    Batch {
        id: b.id.clone(),
        name: b.name.clone(),
        status: b.status.clone(),
        total_files: b.total_files,
        processed_files: b.processed_files,
        failed_files: b.failed_files,
        model_name: copy_opt(&b.model_name),
        created_at: b.created_at.clone(),
        updated_at: b.updated_at.clone(),
        completed_at: copy_opt(&b.completed_at),
    }
}

fn copy_document(d: &Document) -> (r: Document)
    ensures
        r == *d,
{
    Document {
        id: d.id.clone(),
        batch_id: d.batch_id.clone(),
        filename: d.filename.clone(),
        original_name: d.original_name.clone(),
        content_type: d.content_type.clone(),
        file_size: d.file_size,
        file_path: d.file_path.clone(),
        status: d.status.clone(),
        error_message: copy_opt(&d.error_message),
        created_at: d.created_at.clone(),
        updated_at: d.updated_at.clone(),
    }
}

pub(crate) fn copy_extraction(e: &Extraction) -> (r: Extraction)
    ensures
        r == *e,
{
    Extraction {
        id: e.id.clone(),
        document_id: e.document_id.clone(),
        batch_id: e.batch_id.clone(),
        document_type: e.document_type.clone(),
        raw_text: copy_opt(&e.raw_text),
        structured_data: match &e.structured_data {
            Some(v) => Some(v.clone()),
            None => None,
        },
        confidence: e.confidence,
        model_used: copy_opt(&e.model_used),
        processing_time_ms: e.processing_time_ms,
        created_at: e.created_at.clone(),
    }
}

/// The position of the first Batch with this id, or -1.
pub open spec fn batch_index(rows: Seq<Batch>, id: Seq<char>) -> int
    decreases rows.len(),
{
    if rows.len() == 0 {
        -1
    } else if batch_index(rows.drop_last(), id) >= 0 {
        batch_index(rows.drop_last(), id)
    } else if rows.last().id@ == id {
        rows.len() - 1
    } else {
        -1
    }
}

pub proof fn lemma_batch_index(rows: Seq<Batch>, id: Seq<char>)
    ensures
        -1 <= batch_index(rows, id) < rows.len(),
        batch_index(rows, id) >= 0 ==> rows[batch_index(rows, id)].id@ == id,
        batch_index(rows, id) == -1 ==> forall|j: int| 0 <= j < rows.len() ==> (#[trigger] rows[j]).id@
            != id,
    decreases rows.len(),
{
    if rows.len() > 0 {
        lemma_batch_index(rows.drop_last(), id);
        assert forall|j: int| 0 <= j < rows.len() - 1 implies rows.drop_last()[j] == rows[j] by {}
    }
}

/// The position of the first Batch with this id.
fn find_batch(rows: &Vec<Batch>, id: &str) -> (r: Option<usize>)
    ensures
        r matches Some(i) ==> batch_index(rows@, id@) == i,
        r is None ==> batch_index(rows@, id@) == -1,
{
    let idc = chars_of(id);
    let mut res: Option<usize> = None;
    let mut i: usize = 0;
    while i < rows.len()
        invariant
            i <= rows@.len(),
            idc@ == id@,
            res matches Some(k) ==> batch_index(rows@.subrange(0, i as int), id@) == k,
            res is None ==> batch_index(rows@.subrange(0, i as int), id@) == -1,
        decreases rows@.len() - i,
    {
        assert(rows@.subrange(0, i + 1).drop_last() =~= rows@.subrange(0, i as int));
        if res.is_none() && same_chars(&chars_of(rows[i].id.as_str()), &idc) {
            res = Some(i);
        }
        i = i + 1;
    }
    assert(rows@.subrange(0, rows@.len() as int) =~= rows@);
    res
}

/// The position of the first Document with this id, or -1.
pub open spec fn document_index(rows: Seq<Document>, id: Seq<char>) -> int
    decreases rows.len(),
{
    if rows.len() == 0 {
        -1
    } else if document_index(rows.drop_last(), id) >= 0 {
        document_index(rows.drop_last(), id)
    } else if rows.last().id@ == id {
        rows.len() - 1
    } else {
        -1
    }
}

pub proof fn lemma_document_index(rows: Seq<Document>, id: Seq<char>)
    ensures
        -1 <= document_index(rows, id) < rows.len(),
        document_index(rows, id) >= 0 ==> rows[document_index(rows, id)].id@ == id,
        document_index(rows, id) == -1 ==> forall|j: int| 0 <= j < rows.len() ==> (#[trigger] rows[j]).id@
            != id,
    decreases rows.len(),
{
    if rows.len() > 0 {
        lemma_document_index(rows.drop_last(), id);
        assert forall|j: int| 0 <= j < rows.len() - 1 implies rows.drop_last()[j] == rows[j] by {}
    }
}

/// The position of the first Document with this id.
fn find_document(rows: &Vec<Document>, id: &str) -> (r: Option<usize>)
    ensures
        r matches Some(i) ==> document_index(rows@, id@) == i,
        r is None ==> document_index(rows@, id@) == -1,
{
    let idc = chars_of(id);
    let mut res: Option<usize> = None;
    let mut i: usize = 0;
    while i < rows.len()
        invariant
            i <= rows@.len(),
            idc@ == id@,
            res matches Some(k) ==> document_index(rows@.subrange(0, i as int), id@) == k,
            res is None ==> document_index(rows@.subrange(0, i as int), id@) == -1,
        decreases rows@.len() - i,
    {
        assert(rows@.subrange(0, i + 1).drop_last() =~= rows@.subrange(0, i as int));
        if res.is_none() && same_chars(&chars_of(rows[i].id.as_str()), &idc) {
            res = Some(i);
        }
        i = i + 1;
    }
    assert(rows@.subrange(0, rows@.len() as int) =~= rows@);
    res
}

/// The position of the first Extraction with this id, or -1.
pub open spec fn extraction_index(rows: Seq<Extraction>, id: Seq<char>) -> int
    decreases rows.len(),
{
    if rows.len() == 0 {
        -1
    } else if extraction_index(rows.drop_last(), id) >= 0 {
        extraction_index(rows.drop_last(), id)
    } else if rows.last().id@ == id {
        rows.len() - 1
    } else {
        -1
    }
}

pub proof fn lemma_extraction_index(rows: Seq<Extraction>, id: Seq<char>)
    ensures
        -1 <= extraction_index(rows, id) < rows.len(),
        extraction_index(rows, id) >= 0 ==> rows[extraction_index(rows, id)].id@ == id,
        extraction_index(rows, id) == -1 ==> forall|j: int| 0 <= j < rows.len() ==> (#[trigger] rows[j]).id@
            != id,
    decreases rows.len(),
{
    if rows.len() > 0 {
        lemma_extraction_index(rows.drop_last(), id);
        assert forall|j: int| 0 <= j < rows.len() - 1 implies rows.drop_last()[j] == rows[j] by {}
    }
}

/// The position of the first Extraction with this id.
fn find_extraction(rows: &Vec<Extraction>, id: &str) -> (r: Option<usize>)
    ensures
        r matches Some(i) ==> extraction_index(rows@, id@) == i,
        r is None ==> extraction_index(rows@, id@) == -1,
{
    let idc = chars_of(id);
    let mut res: Option<usize> = None;
    let mut i: usize = 0;
    while i < rows.len()
        invariant
            i <= rows@.len(),
            idc@ == id@,
            res matches Some(k) ==> extraction_index(rows@.subrange(0, i as int), id@) == k,
            res is None ==> extraction_index(rows@.subrange(0, i as int), id@) == -1,
        decreases rows@.len() - i,
    {
        assert(rows@.subrange(0, i + 1).drop_last() =~= rows@.subrange(0, i as int));
        if res.is_none() && same_chars(&chars_of(rows[i].id.as_str()), &idc) {
            res = Some(i);
        }
        i = i + 1;
    }
    assert(rows@.subrange(0, rows@.len() as int) =~= rows@);
    res
}

/// The Documents of a batch, in order.
pub open spec fn documents_of(rows: Seq<Document>, batch_id: Seq<char>) -> Seq<Document>
    decreases rows.len(),
{
    if rows.len() == 0 {
        Seq::empty()
    } else if rows.last().batch_id@ == batch_id {
        documents_of(rows.drop_last(), batch_id).push(rows.last())
    } else {
        documents_of(rows.drop_last(), batch_id)
    }
}

/// The Documents of other batches, in order.
pub open spec fn documents_not_of(rows: Seq<Document>, batch_id: Seq<char>) -> Seq<Document>
    decreases rows.len(),
{
    if rows.len() == 0 {
        Seq::empty()
    } else if rows.last().batch_id@ != batch_id {
        documents_not_of(rows.drop_last(), batch_id).push(rows.last())
    } else {
        documents_not_of(rows.drop_last(), batch_id)
    }
}

/// Split the Documents into those of a batch and the others.
fn split_documents(rows: &Vec<Document>, batch_id: &str) -> (r: (Vec<Document>, Vec<Document>))
    ensures
        r.0@ == documents_of(rows@, batch_id@),
        r.1@ == documents_not_of(rows@, batch_id@),
{
    let bc = chars_of(batch_id);
    let mut inside: Vec<Document> = Vec::new();
    let mut outside: Vec<Document> = Vec::new();
    let mut i: usize = 0;
    while i < rows.len()
        invariant
            i <= rows@.len(),
            bc@ == batch_id@,
            inside@ == documents_of(rows@.subrange(0, i as int), batch_id@),
            outside@ == documents_not_of(rows@.subrange(0, i as int), batch_id@),
        decreases rows@.len() - i,
    {
        assert(rows@.subrange(0, i + 1).drop_last() =~= rows@.subrange(0, i as int));
        let row = copy_document(&rows[i]);
        if same_chars(&chars_of(rows[i].batch_id.as_str()), &bc) {
            inside.push(row);
        } else {
            outside.push(row);
        }
        i = i + 1;
    }
    assert(rows@.subrange(0, rows@.len() as int) =~= rows@);
    (inside, outside)
}

/// The Extractions of a batch, in order.
pub open spec fn extractions_of(rows: Seq<Extraction>, batch_id: Seq<char>) -> Seq<Extraction>
    decreases rows.len(),
{
    if rows.len() == 0 {
        Seq::empty()
    } else if rows.last().batch_id@ == batch_id {
        extractions_of(rows.drop_last(), batch_id).push(rows.last())
    } else {
        extractions_of(rows.drop_last(), batch_id)
    }
}

/// The Extractions of other batches, in order.
pub open spec fn extractions_not_of(rows: Seq<Extraction>, batch_id: Seq<char>) -> Seq<Extraction>
    decreases rows.len(),
{
    if rows.len() == 0 {
        Seq::empty()
    } else if rows.last().batch_id@ != batch_id {
        extractions_not_of(rows.drop_last(), batch_id).push(rows.last())
    } else {
        extractions_not_of(rows.drop_last(), batch_id)
    }
}

/// Split the Extractions into those of a batch and the others.
fn split_extractions(rows: &Vec<Extraction>, batch_id: &str) -> (r: (Vec<Extraction>, Vec<Extraction>))
    ensures
        r.0@ == extractions_of(rows@, batch_id@),
        r.1@ == extractions_not_of(rows@, batch_id@),
{
    let bc = chars_of(batch_id);
    let mut inside: Vec<Extraction> = Vec::new();
    let mut outside: Vec<Extraction> = Vec::new();
    let mut i: usize = 0;
    while i < rows.len()
        invariant
            i <= rows@.len(),
            bc@ == batch_id@,
            inside@ == extractions_of(rows@.subrange(0, i as int), batch_id@),
            outside@ == extractions_not_of(rows@.subrange(0, i as int), batch_id@),
        decreases rows@.len() - i,
    {
        assert(rows@.subrange(0, i + 1).drop_last() =~= rows@.subrange(0, i as int));
        let row = copy_extraction(&rows[i]);
        if same_chars(&chars_of(rows[i].batch_id.as_str()), &bc) {
            inside.push(row);
        } else {
            outside.push(row);
        }
        i = i + 1;
    }
    assert(rows@.subrange(0, rows@.len() as int) =~= rows@);
    (inside, outside)
}

/// The text of an optional borrowed text.
pub open spec fn opt_str(o: Option<&str>) -> Option<Seq<char>> {
    match o {
        Some(s) => Some(s@),
        None => None,
    }
}

fn own_opt(o: Option<&str>) -> (r: Option<String>)
    ensures
        crate::text::opt_text(r) == opt_str(o),
{
    match o {
        Some(s) => Some(String::from_str(s)),
        None => None,
    }
}

/// The batches, newest first.
pub open spec fn newest_first(rows: Seq<Batch>) -> Seq<Batch>
    decreases rows.len(),
{
    if rows.len() == 0 {
        Seq::empty()
    } else {
        seq![rows.last()] + newest_first(rows.drop_last())
    }
}

/// Every extraction row has a score in `[0.0, 1.0]`.
pub open spec fn extractions_wf(rows: Seq<Extraction>) -> bool {
    forall|i: int| 0 <= i < rows.len() ==> (#[trigger] rows[i]).confidence.wf()
}

/// Access to batches.
pub struct BatchDao;

impl BatchDao {
    /// Create a `pending` batch with no files.
    pub fn create(store: &mut Store, name: &str, model_name: Option<&str>) -> (r: Result<
        Batch,
        StoreError,
    >)
        requires
            old(store).wf(),
        ensures
            final(store).wf(),
            final(store).documents == old(store).documents,
            final(store).extractions == old(store).extractions,
            r is Err ==> r == Err::<Batch, StoreError>(StoreError::Storage) && final(store).batches
                == old(store).batches,
            r matches Ok(b) ==> {
                &&& batch_index(old(store).batches@, b.id@) == -1
                &&& final(store).batches@ == old(store).batches@.push(b)
                &&& b.name@ == name@
                &&& b.status@ == "pending"@
                &&& b.total_files == 0 && b.processed_files == 0 && b.failed_files == 0
                &&& crate::text::opt_text(b.model_name) == opt_str(model_name)
                &&& b.completed_at is None
            },
    {
        let id = fresh_id();
        if find_batch(&store.batches, id.as_str()).is_some() {
            return Err(StoreError::Storage);
        }
        proof {
            lemma_batch_index(store.batches@, id@);
        }
        let now = now_timestamp();
        let b = Batch {
            id,
            name: String::from_str(name),
            status: String::from_str("pending"),
            total_files: 0,
            processed_files: 0,
            failed_files: 0,
            model_name: own_opt(model_name),
            created_at: now.clone(),
            updated_at: now,
            completed_at: None,
        };
        let ghost before = store.batches@;
        store.batches.push(copy_batch(&b));
        proof {
            assert forall|i: int, j: int|
                0 <= i < j < store.batches@.len() implies (#[trigger] store.batches@[i]).id@
                != (#[trigger] store.batches@[j]).id@ by {
                if j == before.len() {
                    assert(before[i].id@ != b.id@);
                } else {
                    assert(store.batches@[i] == before[i] && store.batches@[j] == before[j]);
                }
            }
        }
        Ok(b)
    }

    /// The batch with this id.
    pub fn get_by_id(store: &Store, id: &str) -> (r: Result<Batch, StoreError>)
        ensures
            batch_index(store.batches@, id@) == -1 <==> r == Err::<Batch, StoreError>(
                StoreError::NotFound,
            ),
            r matches Ok(b) ==> b == store.batches@[batch_index(store.batches@, id@)],
            r matches Err(e) ==> e == StoreError::NotFound,
    {
        proof {
            lemma_batch_index(store.batches@, id@);
        }
        match find_batch(&store.batches, id) {
            Some(i) => Ok(copy_batch(&store.batches[i])),
            None => Err(StoreError::NotFound),
        }
    }

    /// All batches, newest first.
    pub fn list(store: &Store) -> (r: Vec<Batch>)
        ensures
            r@ == newest_first(store.batches@),
    {
        let rows = &store.batches;
        let mut r: Vec<Batch> = Vec::new();
        let mut k: usize = rows.len();
        assert(rows@.subrange(0, rows@.len() as int) =~= rows@);
        while k > 0
            invariant
                k <= rows@.len(),
                r@ + newest_first(rows@.subrange(0, k as int)) == newest_first(rows@),
            decreases k,
        {
            let ghost pre = rows@.subrange(0, k as int);
            assert(pre.drop_last() =~= rows@.subrange(0, k - 1));
            assert(pre.last() == rows@[k - 1]);
            r.push(copy_batch(&rows[k - 1]));
            proof {
                assert(newest_first(pre) == seq![rows@[k - 1]] + newest_first(rows@.subrange(0, k - 1)));
                assert(r@ + newest_first(rows@.subrange(0, k - 1)) =~= newest_first(rows@));
            }
            k = k - 1;
        }
        assert(newest_first(rows@.subrange(0, 0)) =~= Seq::<Batch>::empty());
        assert(r@ =~= newest_first(rows@));
        r
    }

    /// Set the status of a batch.
    pub fn update_status(store: &mut Store, id: &str, status: &str) -> (r: Result<(), StoreError>)
        requires
            old(store).wf(),
        ensures
            final(store).wf(),
            final(store).documents == old(store).documents,
            final(store).extractions == old(store).extractions,
            final(store).batches@.len() == old(store).batches@.len(),
            batch_index(old(store).batches@, id@) == -1 <==> r is Err,
            r is Err ==> r == Err::<(), StoreError>(StoreError::NotFound) && final(store).batches
                == old(store).batches,
            r is Ok ==> ({
                let i = batch_index(old(store).batches@, id@);
                let b = final(store).batches@[i];
                &&& final(store).batches@ == old(store).batches@.update(i, b)
                &&& b == Batch { status: b.status, updated_at: b.updated_at, ..old(store).batches@[i] }
                &&& b.status@ == status@
            }),
    {
        proof {
            lemma_batch_index(store.batches@, id@);
        }
        match find_batch(&store.batches, id) {
            Some(i) => {
                let now = now_timestamp();
                store.batches[i].status = String::from_str(status);
                store.batches[i].updated_at = now;
                Ok(())
            },
            None => Err(StoreError::NotFound),
        }
    }

    /// Set the progress counters of a batch.
    pub fn update_progress(store: &mut Store, id: &str, processed: i32, failed: i32) -> (r: Result<
        (),
        StoreError,
    >)
        requires
            old(store).wf(),
        ensures
            final(store).wf(),
            final(store).documents == old(store).documents,
            final(store).extractions == old(store).extractions,
            final(store).batches@.len() == old(store).batches@.len(),
            batch_index(old(store).batches@, id@) == -1 <==> r is Err,
            r is Err ==> r == Err::<(), StoreError>(StoreError::NotFound) && final(store).batches
                == old(store).batches,
            r is Ok ==> ({
                let i = batch_index(old(store).batches@, id@);
                let b = final(store).batches@[i];
                &&& final(store).batches@ == old(store).batches@.update(i, b)
                &&& b == Batch {
                    processed_files: processed,
                    failed_files: failed,
                    updated_at: b.updated_at,
                    ..old(store).batches@[i]
                }
            }),
    {
        proof {
            lemma_batch_index(store.batches@, id@);
        }
        match find_batch(&store.batches, id) {
            Some(i) => {
                let now = now_timestamp();
                store.batches[i].processed_files = processed;
                store.batches[i].failed_files = failed;
                store.batches[i].updated_at = now;
                Ok(())
            },
            None => Err(StoreError::NotFound),
        }
    }

    /// Set the number of files of a batch.
    pub fn set_total_files(store: &mut Store, id: &str, total: i32) -> (r: Result<(), StoreError>)
        requires
            old(store).wf(),
        ensures
            final(store).wf(),
            final(store).documents == old(store).documents,
            final(store).extractions == old(store).extractions,
            final(store).batches@.len() == old(store).batches@.len(),
            batch_index(old(store).batches@, id@) == -1 <==> r is Err,
            r is Err ==> r == Err::<(), StoreError>(StoreError::NotFound) && final(store).batches
                == old(store).batches,
            r is Ok ==> ({
                let i = batch_index(old(store).batches@, id@);
                let b = final(store).batches@[i];
                &&& final(store).batches@ == old(store).batches@.update(i, b)
                &&& b == Batch { total_files: total, updated_at: b.updated_at, ..old(store).batches@[i] }
            }),
    {
        proof {
            lemma_batch_index(store.batches@, id@);
        }
        match find_batch(&store.batches, id) {
            Some(i) => {
                let now = now_timestamp();
                store.batches[i].total_files = total;
                store.batches[i].updated_at = now;
                Ok(())
            },
            None => Err(StoreError::NotFound),
        }
    }

    /// Delete a batch row; whether there was one.
    pub fn delete(store: &mut Store, id: &str) -> (r: bool)
        requires
            old(store).wf(),
        ensures
            final(store).wf(),
            final(store).documents == old(store).documents,
            final(store).extractions == old(store).extractions,
            r == (batch_index(old(store).batches@, id@) >= 0),
            r ==> final(store).batches@ == old(store).batches@.remove(
                batch_index(old(store).batches@, id@),
            ),
            !r ==> final(store).batches == old(store).batches,
            batch_index(final(store).batches@, id@) == -1,
    {
        proof {
            lemma_batch_index(store.batches@, id@);
        }
        match find_batch(&store.batches, id) {
            Some(i) => {
                let ghost before = store.batches@;
                store.batches.remove(i);
                proof {
                    let after = store.batches@;
                    assert forall|k: int| 0 <= k < after.len() implies (#[trigger] after[k]).id@
                        != id@ by {
                        if k < i {
                            assert(after[k] == before[k]);
                            assert(before[k as int].id@ != before[i as int].id@);
                        } else {
                            assert(after[k] == before[k + 1]);
                            assert(before[i as int].id@ != before[k + 1].id@);
                        }
                    }
                    lemma_batch_index(after, id@);
                    assert forall|a: int, b: int|
                        0 <= a < b < after.len() implies (#[trigger] after[a]).id@
                        != (#[trigger] after[b]).id@ by {
                        let a2 = if a < i { a } else { a + 1 };
                        let b2 = if b < i { b } else { b + 1 };
                        assert(after[a] == before[a2] && after[b] == before[b2]);
                        assert(before[a2].id@ != before[b2].id@);
                    }
                }
                true
            },
            None => false,
        }
    }
}

/// Access to documents.
pub struct DocumentDao;

/// The stored paths of documents, in order.
pub open spec fn paths_of(docs: Seq<Document>) -> Seq<String> {
    docs.map_values(|d: Document| d.file_path)
}

impl DocumentDao {
    /// Record an uploaded file of a batch, `pending`.
    pub fn create(
        store: &mut Store,
        batch_id: &str,
        filename: &str,
        original_name: &str,
        content_type: &str,
        file_size: i64,
        file_path: &str,
    ) -> (r: Result<Document, StoreError>)
        ensures
            final(store).batches == old(store).batches,
            final(store).extractions == old(store).extractions,
            r is Err ==> r == Err::<Document, StoreError>(StoreError::Storage)
                && final(store).documents == old(store).documents,
            r matches Ok(d) ==> {
                &&& document_index(old(store).documents@, d.id@) == -1
                &&& final(store).documents@ == old(store).documents@.push(d)
                &&& d.batch_id@ == batch_id@
                &&& d.filename@ == filename@
                &&& d.original_name@ == original_name@
                &&& d.content_type@ == content_type@
                &&& d.file_size == file_size
                &&& d.file_path@ == file_path@
                &&& d.status@ == "pending"@
                &&& d.error_message is None
            },
    {
        let id = fresh_id();
        if find_document(&store.documents, id.as_str()).is_some() {
            return Err(StoreError::Storage);
        }
        let now = now_timestamp();
        let d = Document {
            id,
            batch_id: String::from_str(batch_id),
            filename: String::from_str(filename),
            original_name: String::from_str(original_name),
            content_type: String::from_str(content_type),
            file_size,
            file_path: String::from_str(file_path),
            status: String::from_str("pending"),
            error_message: None,
            created_at: now.clone(),
            updated_at: now,
        };
        store.documents.push(copy_document(&d));
        Ok(d)
    }

    /// The document with this id.
    pub fn get_by_id(store: &Store, id: &str) -> (r: Result<Document, StoreError>)
        ensures
            document_index(store.documents@, id@) == -1 <==> r == Err::<Document, StoreError>(
                StoreError::NotFound,
            ),
            r matches Ok(d) ==> d == store.documents@[document_index(store.documents@, id@)],
            r matches Err(e) ==> e == StoreError::NotFound,
    {
        proof {
            lemma_document_index(store.documents@, id@);
        }
        match find_document(&store.documents, id) {
            Some(i) => Ok(copy_document(&store.documents[i])),
            None => Err(StoreError::NotFound),
        }
    }

    /// The documents of a batch, in order of creation.
    pub fn list_by_batch(store: &Store, batch_id: &str) -> (r: Vec<Document>)
        ensures
            r@ == documents_of(store.documents@, batch_id@),
    {
        split_documents(&store.documents, batch_id).0
    }

    /// Set the status and the error message of a document.
    pub fn update_status(
        store: &mut Store,
        id: &str,
        status: &str,
        error_message: Option<&str>,
    ) -> (r: Result<(), StoreError>)
        ensures
            final(store).batches == old(store).batches,
            final(store).extractions == old(store).extractions,
            final(store).documents@.len() == old(store).documents@.len(),
            document_index(old(store).documents@, id@) == -1 <==> r is Err,
            r is Err ==> r == Err::<(), StoreError>(StoreError::NotFound)
                && final(store).documents == old(store).documents,
            r is Ok ==> ({
                let i = document_index(old(store).documents@, id@);
                let d = final(store).documents@[i];
                &&& final(store).documents@ == old(store).documents@.update(i, d)
                &&& d == Document {
                    status: d.status,
                    error_message: d.error_message,
                    updated_at: d.updated_at,
                    ..old(store).documents@[i]
                }
                &&& d.status@ == status@
                &&& crate::text::opt_text(d.error_message) == opt_str(error_message)
            }),
    {
        proof {
            lemma_document_index(store.documents@, id@);
        }
        match find_document(&store.documents, id) {
            Some(i) => {
                let now = now_timestamp();
                store.documents[i].status = String::from_str(status);
                store.documents[i].error_message = own_opt(error_message);
                store.documents[i].updated_at = now;
                Ok(())
            },
            None => Err(StoreError::NotFound),
        }
    }

    /// Delete a document row; whether there was one.
    pub fn delete(store: &mut Store, id: &str) -> (r: bool)
        ensures
            final(store).batches == old(store).batches,
            final(store).extractions == old(store).extractions,
            r == (document_index(old(store).documents@, id@) >= 0),
            r ==> final(store).documents@ == old(store).documents@.remove(
                document_index(old(store).documents@, id@),
            ),
            !r ==> final(store).documents == old(store).documents,
    {
        proof {
            lemma_document_index(store.documents@, id@);
        }
        match find_document(&store.documents, id) {
            Some(i) => {
                store.documents.remove(i);
                true
            },
            None => false,
        }
    }

    /// Delete the documents of a batch; the paths of their files, for the
    /// caller to remove.
    pub fn delete_by_batch(store: &mut Store, batch_id: &str) -> (r: Vec<String>)
        ensures
            final(store).batches == old(store).batches,
            final(store).extractions == old(store).extractions,
            final(store).documents@ == documents_not_of(old(store).documents@, batch_id@),
            r@ == paths_of(documents_of(old(store).documents@, batch_id@)),
    {
        let (inside, outside) = split_documents(&store.documents, batch_id);
        store.documents = outside;
        let mut paths: Vec<String> = Vec::new();
        let mut i: usize = 0;
        while i < inside.len()
            invariant
                i <= inside@.len(),
                paths@ == paths_of(inside@.subrange(0, i as int)),
            decreases inside@.len() - i,
        {
            paths.push(inside[i].file_path.clone());
            i = i + 1;
            assert(paths@ =~= paths_of(inside@.subrange(0, i as int)));
        }
        assert(inside@.subrange(0, inside@.len() as int) =~= inside@);
        paths
    }
}

/// Access to extractions.
pub struct ExtractionDao;

/// An extraction passes a filter: it belongs to the batch, has the type
/// where one is given, and a score at least the minimum where one is given.
pub open spec fn passes_filter(
    e: Extraction,
    batch_id: Seq<char>,
    document_type: Option<Seq<char>>,
    min_confidence_bits: Option<u64>,
) -> bool {
    &&& e.batch_id@ == batch_id
    &&& (document_type matches Some(t) ==> e.document_type@ == t)
    &&& (min_confidence_bits matches Some(m) ==> crate::confidence::at_least_spec(
        e.confidence.bits,
        m,
    ))
}

/// The extractions that pass a filter, in order.
pub open spec fn filtered(
    rows: Seq<Extraction>,
    batch_id: Seq<char>,
    document_type: Option<Seq<char>>,
    min_confidence_bits: Option<u64>,
) -> Seq<Extraction>
    decreases rows.len(),
{
    if rows.len() == 0 {
        Seq::empty()
    } else if passes_filter(rows.last(), batch_id, document_type, min_confidence_bits) {
        filtered(rows.drop_last(), batch_id, document_type, min_confidence_bits).push(rows.last())
    } else {
        filtered(rows.drop_last(), batch_id, document_type, min_confidence_bits)
    }
}

/// `new_row` is `old_row` with its type, structured data, score, model and
/// time replaced by these.
pub open spec fn updated_row(
    old_row: Extraction,
    new_row: Extraction,
    document_type: Seq<char>,
    structured_data: Option<serde_json::Value>,
    confidence: Confidence,
    model_used: Option<Seq<char>>,
    processing_time_ms: i64,
) -> bool {
    &&& new_row == Extraction {
        document_type: new_row.document_type,
        model_used: new_row.model_used,
        structured_data,
        confidence,
        processing_time_ms,
        ..old_row
    }
    &&& new_row.document_type@ == document_type
    &&& crate::text::opt_text(new_row.model_used) == model_used
}

/// Two rows hold the same values, texts compared by their characters.
pub open spec fn same_row(a: Extraction, b: Extraction) -> bool {
    &&& a.id == b.id
    &&& a.document_id == b.document_id
    &&& a.batch_id == b.batch_id
    &&& a.document_type@ == b.document_type@
    &&& a.raw_text == b.raw_text
    &&& a.structured_data == b.structured_data
    &&& a.confidence == b.confidence
    &&& crate::text::opt_text(a.model_used) == crate::text::opt_text(b.model_used)
    &&& a.processing_time_ms == b.processing_time_ms
    &&& a.created_at == b.created_at
}

impl ExtractionDao {
    /// Record an extraction.
    pub fn create(
        store: &mut Store,
        document_id: &str,
        batch_id: &str,
        document_type: &str,
        raw_text: Option<&str>,
        structured_data: Option<&serde_json::Value>,
        confidence: Confidence,
        model_used: Option<&str>,
        processing_time_ms: i64,
    ) -> (r: Result<Extraction, StoreError>)
        requires
            confidence.wf(),
        ensures
            final(store).batches == old(store).batches,
            final(store).documents == old(store).documents,
            r is Err ==> r == Err::<Extraction, StoreError>(StoreError::Storage)
                && final(store).extractions == old(store).extractions,
            r matches Ok(e) ==> {
                &&& extraction_index(old(store).extractions@, e.id@) == -1
                &&& final(store).extractions@ == old(store).extractions@.push(e)
                &&& e.confidence.wf()
                &&& e.document_id@ == document_id@
                &&& e.batch_id@ == batch_id@
                &&& e.document_type@ == document_type@
                &&& crate::text::opt_text(e.raw_text) == opt_str(raw_text)
                &&& e.structured_data == (match structured_data {
                    Some(v) => Some(*v),
                    None => None,
                })
                &&& e.confidence == confidence
                &&& crate::text::opt_text(e.model_used) == opt_str(model_used)
                &&& e.processing_time_ms == processing_time_ms
            },
    {
        let id = fresh_id();
        if find_extraction(&store.extractions, id.as_str()).is_some() {
            return Err(StoreError::Storage);
        }
        let e = Extraction {
            id,
            document_id: String::from_str(document_id),
            batch_id: String::from_str(batch_id),
            document_type: String::from_str(document_type),
            raw_text: own_opt(raw_text),
            structured_data: match structured_data {
                Some(v) => Some(v.clone()),
                None => None,
            },
            confidence,
            model_used: own_opt(model_used),
            processing_time_ms,
            created_at: now_timestamp(),
        };
        store.extractions.push(copy_extraction(&e));
        Ok(e)
    }

    /// The extraction with this id.
    pub fn get_by_id(store: &Store, id: &str) -> (r: Result<Extraction, StoreError>)
        ensures
            extraction_index(store.extractions@, id@) == -1 <==> r == Err::<Extraction, StoreError>(
                StoreError::NotFound,
            ),
            r matches Ok(e) ==> e == store.extractions@[extraction_index(store.extractions@, id@)],
            r matches Err(e) ==> e == StoreError::NotFound,
    {
        proof {
            lemma_extraction_index(store.extractions@, id@);
        }
        match find_extraction(&store.extractions, id) {
            Some(i) => Ok(copy_extraction(&store.extractions[i])),
            None => Err(StoreError::NotFound),
        }
    }

    /// The extractions of a batch, in order of creation.
    pub fn list_by_batch(store: &Store, batch_id: &str) -> (r: Vec<Extraction>)
        ensures
            r@ == extractions_of(store.extractions@, batch_id@),
    {
        split_extractions(&store.extractions, batch_id).0
    }

    /// The extractions of a batch that have the given type and at least the
    /// given score (each where given), in order of creation.
    pub fn list_by_batch_filtered(
        store: &Store,
        batch_id: &str,
        document_type: Option<&str>,
        min_confidence_bits: Option<u64>,
    ) -> (r: Vec<Extraction>)
        requires
            extractions_wf(store.extractions@),
        ensures
            r@ == filtered(store.extractions@, batch_id@, opt_str(document_type), min_confidence_bits),
            extractions_wf(r@),
    {
        let rows = &store.extractions;
        let bc = chars_of(batch_id);
        let tc = match document_type {
            Some(t) => Some(chars_of(t)),
            None => None,
        };
        let mut r: Vec<Extraction> = Vec::new();
        let mut i: usize = 0;
        while i < rows.len()
            invariant
                i <= rows@.len(),
                bc@ == batch_id@,
                tc matches Some(t) ==> document_type matches Some(d) && t@ == d@,
                tc is None ==> document_type is None,
                extractions_wf(rows@),
                extractions_wf(r@),
                r@ == filtered(
                    rows@.subrange(0, i as int),
                    batch_id@,
                    opt_str(document_type),
                    min_confidence_bits,
                ),
            decreases rows@.len() - i,
        {
            assert(rows@.subrange(0, i + 1).drop_last() =~= rows@.subrange(0, i as int));
            let e = &rows[i];
            let in_batch = same_chars(&chars_of(e.batch_id.as_str()), &bc);
            let type_ok = match &tc {
                Some(t) => same_chars(&chars_of(e.document_type.as_str()), t),
                None => true,
            };
            let score_ok = match min_confidence_bits {
                Some(m) => e.confidence.at_least(m),
                None => true,
            };
            if in_batch && type_ok && score_ok {
                r.push(copy_extraction(e));
            }
            i = i + 1;
        }
        assert(rows@.subrange(0, rows@.len() as int) =~= rows@);
        r
    }

    /// Overwrite the type, structured data, score, model and time of an
    /// extraction in one step.
    pub fn update_structured(
        store: &mut Store,
        id: &str,
        document_type: &str,
        structured_data: Option<&serde_json::Value>,
        confidence: Confidence,
        model_used: Option<&str>,
        processing_time_ms: i64,
    ) -> (r: Result<(), StoreError>)
        requires
            extractions_wf(old(store).extractions@),
            confidence.wf(),
        ensures
            final(store).batches == old(store).batches,
            final(store).documents == old(store).documents,
            extractions_wf(final(store).extractions@),
            final(store).extractions@.len() == old(store).extractions@.len(),
            extraction_index(old(store).extractions@, id@) == -1 <==> r is Err,
            r is Err ==> r == Err::<(), StoreError>(StoreError::NotFound)
                && final(store).extractions == old(store).extractions,
            r is Ok ==> ({
                let i = extraction_index(old(store).extractions@, id@);
                let e = final(store).extractions@[i];
                &&& final(store).extractions@ == old(store).extractions@.update(i, e)
                &&& updated_row(
                    old(store).extractions@[i],
                    e,
                    document_type@,
                    match structured_data {
                        Some(v) => Some(*v),
                        None => None,
                    },
                    confidence,
                    opt_str(model_used),
                    processing_time_ms,
                )
            }),
    {
        proof {
            lemma_extraction_index(store.extractions@, id@);
        }
        match find_extraction(&store.extractions, id) {
            Some(i) => {
                store.extractions[i].document_type = String::from_str(document_type);
                store.extractions[i].structured_data = match structured_data {
                    Some(v) => Some(v.clone()),
                    None => None,
                };
                store.extractions[i].confidence = confidence;
                store.extractions[i].model_used = own_opt(model_used);
                store.extractions[i].processing_time_ms = processing_time_ms;
                proof {
                    assert forall|j: int| 0 <= j < store.extractions@.len() implies (
                    #[trigger] store.extractions@[j]).confidence.wf() by {
                        if j != i {
                            assert(store.extractions@[j] == old(store).extractions@[j]);
                        }
                    }
                }
                Ok(())
            },
            None => Err(StoreError::NotFound),
        }
    }

    /// Delete the extractions of a batch; how many there were.
    pub fn delete_by_batch(store: &mut Store, batch_id: &str) -> (r: usize)
        ensures
            final(store).batches == old(store).batches,
            final(store).documents == old(store).documents,
            final(store).extractions@ == extractions_not_of(old(store).extractions@, batch_id@),
            r == extractions_of(old(store).extractions@, batch_id@).len(),
    {
        let (inside, outside) = split_extractions(&store.extractions, batch_id);
        store.extractions = outside;
        inside.len()
    }
}

/// Reading an extraction back by its id right after it was created gives
/// the structured data it was created with.
pub proof fn lemma_extraction_round_trip(rows: Seq<Extraction>, e: Extraction)
    requires
        extraction_index(rows, e.id@) == -1,
    ensures
        extraction_index(rows.push(e), e.id@) == rows.len(),
        rows.push(e)[extraction_index(rows.push(e), e.id@)].structured_data == e.structured_data,
{
    assert(rows.push(e).drop_last() =~= rows);
}

/// Applying the same structured update twice gives the same row as once.
pub proof fn lemma_structured_update_idempotent(
    row: Extraction,
    once: Extraction,
    twice: Extraction,
    document_type: Seq<char>,
    structured_data: Option<serde_json::Value>,
    confidence: Confidence,
    model_used: Option<Seq<char>>,
    processing_time_ms: i64,
)
    requires
        updated_row(
            row,
            once,
            document_type,
            structured_data,
            confidence,
            model_used,
            processing_time_ms,
        ),
        updated_row(
            once,
            twice,
            document_type,
            structured_data,
            confidence,
            model_used,
            processing_time_ms,
        ),
    ensures
        same_row(once, twice),
{
}

/// After the cascade delete of a batch (its extractions, then its
/// documents), none of its extractions or documents is left, and the paths
/// handed back are those of all its documents.
pub proof fn lemma_cascade_delete(
    extractions: Seq<Extraction>,
    documents: Seq<Document>,
    batch_id: Seq<char>,
)
    ensures
        extractions_of(extractions_not_of(extractions, batch_id), batch_id).len() == 0,
        documents_of(documents_not_of(documents, batch_id), batch_id).len() == 0,
{
    lemma_extractions_none_left(extractions, batch_id);
    lemma_documents_none_left(documents, batch_id);
}

proof fn lemma_extractions_none_left(rows: Seq<Extraction>, batch_id: Seq<char>)
    ensures
        extractions_of(extractions_not_of(rows, batch_id), batch_id).len() == 0,
    decreases rows.len(),
{
    if rows.len() > 0 {
        lemma_extractions_none_left(rows.drop_last(), batch_id);
        if rows.last().batch_id@ != batch_id {
            let kept = extractions_not_of(rows.drop_last(), batch_id).push(rows.last());
            assert(kept.drop_last() =~= extractions_not_of(rows.drop_last(), batch_id));
        }
    }
}

proof fn lemma_documents_none_left(rows: Seq<Document>, batch_id: Seq<char>)
    ensures
        documents_of(documents_not_of(rows, batch_id), batch_id).len() == 0,
    decreases rows.len(),
{
    if rows.len() > 0 {
        lemma_documents_none_left(rows.drop_last(), batch_id);
        if rows.last().batch_id@ != batch_id {
            let kept = documents_not_of(rows.drop_last(), batch_id).push(rows.last());
            assert(kept.drop_last() =~= documents_not_of(rows.drop_last(), batch_id));
        }
    }
}

} // verus!
