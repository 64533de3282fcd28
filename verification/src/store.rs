use vstd::prelude::*;
use vstd::multiset::Multiset;

use crate::date::{date_le, spec_date_le};
use crate::document::{spec_slug, Document};
use crate::source::{bad_indices, doc_matches_input, good_indices, source_documents, ManifestInput, SourceError};
use crate::text::str_eq;
use vstd::rwlock::{ReadHandle, RwLock, RwLockPredicate};

verus! {

/// A slug lookup that matched no document.
#[derive(Debug, Clone, Copy, PartialEq, Eq, Structural)]
pub struct NotFoundError;

/// Document `a` is dated on or after document `b`.
pub open spec fn spec_date_ge_doc(a: Document, b: Document) -> bool {
    spec_date_le(b.date_value, a.date_value)
}

/// The documents of `s` as the run holds them, one per reference.
pub open spec fn refs_view(s: Seq<&Document>) -> Seq<Document> {
    Seq::new(s.len(), |i: int| if 0 <= i < s.len() { *s[i] } else { *s[0] })
}

/// Insert `d` into the reverse-chronologically sorted run `r`: after every
/// document dated on or after `d`, so that equal dates keep their order.
pub open spec fn spec_insert_doc(r: Seq<Document>, d: Document) -> Seq<Document>
    decreases r.len(),
{
    if r.len() == 0 {
        seq![d]
    } else if spec_date_ge_doc(r.last(), d) {
        r.push(d)
    } else {
        spec_insert_doc(r.drop_last(), d).push(r.last())
    }
}

/// The documents sorted by date descending, ties kept in their given order
/// (discovery order): a stable insertion sort.
pub open spec fn spec_sort_docs(s: Seq<Document>) -> Seq<Document>
    decreases s.len(),
{
    if s.len() == 0 {
        Seq::empty()
    } else {
        spec_insert_doc(spec_sort_docs(s.drop_last()), s.last())
    }
}

/// Sorted by date, newest first.
pub open spec fn spec_sorted_desc(s: Seq<Document>) -> bool {
    forall|i: int, j: int| 0 <= i <= j < s.len() ==> spec_date_ge_doc(#[trigger] s[i], #[trigger] s[j])
}

/// Inserting into a sorted run keeps it sorted and adds exactly the new
/// document.
pub proof fn lemma_insert_doc(r: Seq<Document>, d: Document)
    requires
        spec_sorted_desc(r),
    ensures
        spec_sorted_desc(spec_insert_doc(r, d)),
        spec_insert_doc(r, d).to_multiset() == r.to_multiset().insert(d),
        spec_insert_doc(r, d).len() == r.len() + 1,
    decreases r.len(),
{
    broadcast use vstd::seq_lib::group_to_multiset_ensures;

    if r.len() == 0 {
        assert(seq![d] =~= Seq::<Document>::empty().push(d));
        assert(Seq::<Document>::empty().to_multiset() =~= Multiset::<Document>::empty());
    } else if spec_date_ge_doc(r.last(), d) {
        assert forall|i: int, j: int|
            0 <= i <= j < r.push(d).len() implies spec_date_ge_doc(
            #[trigger] r.push(d)[i],
            #[trigger] r.push(d)[j],
        ) by {
            if j < r.len() {
            } else if i < r.len() {
                assert(spec_date_ge_doc(r[i], r.last()));
                crate::date::lemma_date_le_total(
                    d.date_value,
                    r.last().date_value,
                    r[i].date_value,
                );
            } else {
                crate::date::lemma_date_le_total(d.date_value, d.date_value, d.date_value);
            }
        }
    } else {
        assert(forall|i: int|
            0 <= i < r.len() - 1 ==> r.drop_last()[i] == r[i]);
        lemma_insert_doc(r.drop_last(), d);
        let inner = spec_insert_doc(r.drop_last(), d);
        let out = inner.push(r.last());
        assert(r.drop_last().push(r.last()) =~= r);
        assert(out.to_multiset() == r.to_multiset().insert(d)) by {
            assert(inner.to_multiset() == r.drop_last().to_multiset().insert(d));
            assert(out.to_multiset() =~= inner.to_multiset().insert(r.last()));
            assert(r.to_multiset() =~= r.drop_last().to_multiset().insert(r.last()));
            assert(r.drop_last().to_multiset().insert(d).insert(r.last())
                =~= r.drop_last().to_multiset().insert(r.last()).insert(d));
        }
        assert forall|i: int, j: int|
            0 <= i <= j < out.len() implies spec_date_ge_doc(
            #[trigger] out[i],
            #[trigger] out[j],
        ) by {
            crate::date::lemma_date_le_total(d.date_value, r.last().date_value, d.date_value);
            if j < inner.len() {
            } else {
                // out[j] is r.last(), strictly later than d; every element of
                // `inner` is an element of `r` or is `d` itself
                if i < inner.len() {
                    assert(inner.to_multiset().count(inner[i]) > 0);
                    if inner[i] == d {
                        crate::date::lemma_date_le_total(
                            r.last().date_value,
                            d.date_value,
                            inner[i].date_value,
                        );
                    } else {
                        assert(r.drop_last().to_multiset().count(inner[i]) > 0);
                        assert(r.drop_last().contains(inner[i]));
                        let w = choose|w: int|
                            0 <= w < r.drop_last().len() && r.drop_last()[w] == inner[i];
                        assert(spec_date_ge_doc(r[w], r.last()));
                        crate::date::lemma_date_le_total(
                            r.last().date_value,
                            r[w].date_value,
                            r[w].date_value,
                        );
                    }
                }
            }
        }
    }
}

/// The new document stands at position `j` of the run: after every document
/// dated on or after it, before every strictly older one.
pub open spec fn inserted_at(r: Seq<Document>, d: Document, j: int) -> bool {
    &&& 0 <= j <= r.len()
    &&& spec_insert_doc(r, d) == r.take(j) + seq![d] + r.skip(j)
    &&& forall|k: int| 0 <= k < j ==> spec_date_ge_doc(#[trigger] r[k], d)
    &&& forall|k: int| j <= k < r.len() ==> !spec_date_ge_doc(#[trigger] r[k], d)
}

/// Law: insertion is stable. The inserted document lands after every document
/// dated on or after it — equal dates keep their given order, which for the
/// sort is discovery order — and before every strictly older one.
pub proof fn lemma_insert_doc_stable(r: Seq<Document>, d: Document)
    requires
        spec_sorted_desc(r),
    ensures
        exists|j: int| #[trigger] inserted_at(r, d, j),
    decreases r.len(),
{
    if r.len() == 0 {
        assert(spec_insert_doc(r, d) =~= r.take(0) + seq![d] + r.skip(0));
        assert(inserted_at(r, d, 0));
    } else if spec_date_ge_doc(r.last(), d) {
        let j = r.len() as int;
        assert(spec_insert_doc(r, d) =~= r.take(j) + seq![d] + r.skip(j));
        assert forall|k: int| 0 <= k < j implies spec_date_ge_doc(#[trigger] r[k], d) by {
            assert(spec_date_ge_doc(r[k], r.last()));
            crate::date::lemma_date_le_total(d.date_value, r.last().date_value, r[k].date_value);
        }
        assert(inserted_at(r, d, j));
    } else {
        let dl = r.drop_last();
        assert(forall|k: int| 0 <= k < dl.len() ==> dl[k] == r[k]);
        lemma_insert_doc_stable(dl, d);
        let j = choose|j: int| inserted_at(dl, d, j);
        assert(r.take(j) =~= dl.take(j));
        assert(spec_insert_doc(r, d) =~= spec_insert_doc(dl, d).push(r.last()));
        assert(spec_insert_doc(dl, d).push(r.last()) =~= r.take(j) + seq![d] + r.skip(j));
        assert(inserted_at(r, d, j));
    }
}

/// Law: the sorted listing is sorted by date descending and holds exactly the
/// given documents.
pub proof fn lemma_sort_docs(s: Seq<Document>)
    ensures
        spec_sorted_desc(spec_sort_docs(s)),
        spec_sort_docs(s).to_multiset() == s.to_multiset(),
        spec_sort_docs(s).len() == s.len(),
    decreases s.len(),
{
    broadcast use vstd::seq_lib::group_to_multiset_ensures;

    if s.len() == 0 {
        assert(Seq::<Document>::empty().to_multiset() =~= Multiset::<Document>::empty());
        assert(s.to_multiset() =~= Multiset::<Document>::empty());
    } else {
        lemma_sort_docs(s.drop_last());
        lemma_insert_doc(spec_sort_docs(s.drop_last()), s.last());
        assert(s.drop_last().push(s.last()) =~= s);
        assert(s.to_multiset() =~= s.drop_last().to_multiset().insert(s.last()));
    }
}

/// The document index: the current generation of sourced documents. Replaced
/// wholesale on a successful rebuild, never mutated in place; a failed
/// rebuild leaves the previous generation intact.
pub struct Context {
    docs: Vec<Document>,
}

impl View for Context {
    type V = Seq<Document>;

    closed spec fn view(&self) -> Seq<Document> {
        self.docs@
    }
}

impl Context {
    /// An empty index.
    pub fn new() -> (c: Context)
        ensures
            c@ == Seq::<Document>::empty(),
    {
        Context { docs: Vec::new() }
    }

    /// Swap in the outcome of one sourcing pass. On success the new
    /// generation replaces the old one in full; on failure the index is left
    /// exactly as it was — a reader never observes a mixture.
    pub fn rebuild(&mut self, sourced: Result<Vec<Document>, String>)
        ensures
            match sourced {
                Ok(docs) => final(self)@ == docs@,
                Err(_) => final(self)@ == old(self)@,
            },
    {
        match sourced {
            Ok(docs) => {
                self.docs = docs;
            },
            Err(_) => {},
        }
    }

    /// The number of documents in the current generation.
    pub fn len(&self) -> (n: usize)
        ensures
            n == self@.len(),
    {
        self.docs.len()
    }

    /// The current generation's documents, sorted by date descending, ties in
    /// discovery order.
    pub fn list(&self) -> (r: Vec<&Document>)
        ensures
            refs_view(r@) == spec_sort_docs(self@),
    {
        let mut out: Vec<&Document> = Vec::new();
        let mut i: usize = 0;
        while i < self.docs.len()
            invariant
                i <= self.docs@.len(),
                self.docs@ == self@,
                out@.len() > 0 ==> i > 0,
                refs_view(out@) == spec_sort_docs(self@.take(i as int)),
            decreases self.docs@.len() - i,
        {
            proof {
                assert(self@.take(i as int + 1).drop_last() =~= self@.take(i as int));
            }
            insert_sorted(&mut out, &self.docs[i]);
            i += 1;
        }
        proof {
            assert(self@.take(self@.len() as int) =~= self@);
        }
        out
    }

    /// Linear lookup by slug: the first document whose slug (declared or
    /// derived from the title) is `slug`; a miss is an error, not an empty
    /// success.
    pub fn find_by_slug(&self, slug: &str) -> (r: Result<&Document, NotFoundError>)
        ensures
            match r {
                Ok(d) => exists|i: int|
                    0 <= i < self@.len() && *d == self@[i] && spec_slug(self@[i]) == slug@ && (forall|
                        j: int,
                    | 0 <= j < i ==> spec_slug(self@[j]) != slug@),
                Err(_) => forall|i: int| 0 <= i < self@.len() ==> spec_slug(self@[i]) != slug@,
            },
    {
        let mut i: usize = 0;
        while i < self.docs.len()
            invariant
                i <= self.docs@.len(),
                self.docs@ == self@,
                forall|j: int| 0 <= j < i ==> spec_slug(self@[j]) != slug@,
            decreases self.docs@.len() - i,
        {
            let s = self.docs[i].slug();
            if str_eq(s.as_str(), slug) {
                return Ok(&self.docs[i]);
            }
            i += 1;
        }
        Err(NotFoundError)
    }
}

/// The invariant every reader of the shared index relies on: each held
/// document is well formed — its raw date string names exactly its validated
/// calendar date.
pub struct IndexPred;

impl RwLockPredicate<Context> for IndexPred {
    open spec fn inv(self, ctx: Context) -> bool {
        forall|i: int| 0 <= i < ctx@.len() ==> (#[trigger] ctx@[i]).wf()
    }
}

/// The index behind a single-writer/multiple-reader lock: any number of
/// concurrent readers may hold the current generation while a rebuild is in
/// flight; the rebuild's sourcing work happens outside the exclusive section,
/// which covers only the generation swap. A reader observes the generation it
/// acquired in full — never a mixture — because the swap replaces the whole
/// collection under exclusive access.
pub struct SharedIndex {
    lock: RwLock<Context, IndexPred>,
}

impl SharedIndex {
    /// A shared index holding the empty generation.
    pub fn new() -> SharedIndex {
        let ctx = Context::new();
        SharedIndex { lock: RwLock::new(ctx, Ghost(IndexPred)) }
    }

    /// Acquire the current generation for reading; any number of readers may
    /// hold it at once. Every document seen through the handle is well
    /// formed. The handle must be released with `release_read`.
    pub fn read(&self) -> (handle: ReadHandle<'_, Context, IndexPred>)
        ensures
            forall|i: int| 0 <= i < handle.view()@.len() ==> (#[trigger] handle.view()@[i]).wf(),
    {
        self.lock.acquire_read()
    }

    /// Rebuild the index from one gathering pass over the source tree. The
    /// sourcing work runs outside the exclusive section; the lock is held
    /// only to swap the new generation in. A failed gathering pass leaves the
    /// previous generation in place. Returns the reasons of the skipped
    /// documents, for the caller to report.
    pub fn rebuild(&self, inputs: Result<Vec<ManifestInput>, String>) -> (skipped: Vec<SourceError>)
        ensures
            match inputs {
                Ok(ins) => skipped@.len() == bad_indices(ins@).len() && forall|k: int|
                    0 <= k < skipped@.len() ==> #[trigger] skipped@[k] == crate::source::spec_error_of(
                        ins@[bad_indices(ins@)[k]],
                    ),
                Err(_) => skipped@.len() == 0,
            },
    {
        let (sourced, skipped): (Result<Vec<Document>, String>, Vec<SourceError>) = match inputs {
            Ok(ins) => {
                let outcome = source_documents(ins);
                proof {
                    assert forall|k: int|
                        0 <= k < outcome.documents@.len() implies (
                    #[trigger] outcome.documents@[k]).wf() by {
                        assert(doc_matches_input(ins@[good_indices(ins@)[k]], outcome.documents@[k]));
                    }
                }
                (Ok(outcome.documents), outcome.skipped)
            },
            Err(e) => (Err(e), Vec::new()),
        };
        let (mut ctx, write_handle) = self.lock.acquire_write();
        ctx.rebuild(sourced);
        write_handle.release_write(ctx);
        skipped
    }
}

/// Insert a document into a sorted run, after every document dated on or
/// after it.
fn insert_sorted<'a>(run: &mut Vec<&'a Document>, d: &'a Document)
    ensures
        refs_view(final(run)@) == spec_insert_doc(refs_view(old(run)@), *d),
{
    let ghost orig = refs_view(old(run)@);
    let mut tail: Vec<&'a Document> = Vec::new();
    let mut stop = false;
    while !stop && run.len() > 0
        invariant
            spec_insert_doc(orig, *d) =~= spec_insert_doc(refs_view(run@), *d) + refs_view(
                tail@,
            ).reverse(),
            stop ==> run@.len() > 0 && spec_date_ge_doc(*run@.last(), *d),
        decreases run@.len() + (if stop { 0int } else { 1int }),
    {
        let last = run[run.len() - 1];
        if date_le(&d.date_value, &last.date_value) {
            stop = true;
        } else {
            proof {
                let rv = refs_view(run@);
                assert(!spec_date_ge_doc(rv.last(), *d));
                assert(spec_insert_doc(rv, *d) == spec_insert_doc(rv.drop_last(), *d).push(
                    rv.last(),
                ));
                assert(refs_view(run@.drop_last()) =~= refs_view(run@).drop_last());
                assert(refs_view(tail@.push(run@.last())) =~= refs_view(tail@).push(*run@.last()));
                assert(refs_view(tail@).push(*run@.last()).reverse() =~= seq![*run@.last()]
                    + refs_view(tail@).reverse());
                assert(spec_insert_doc(rv.drop_last(), *d).push(rv.last()) + refs_view(
                    tail@,
                ).reverse() =~= spec_insert_doc(rv.drop_last(), *d) + (seq![rv.last()] + refs_view(
                    tail@,
                ).reverse()));
            }
            let popped = match run.pop() {
                Some(p) => p,
                None => {
                    proof {
                        assert(false);
                    }
                    d
                },
            };
            tail.push(popped);
        }
    }
    proof {
        let rv = refs_view(run@);
        if run@.len() > 0 && spec_date_ge_doc(*run@.last(), *d) {
            assert(spec_insert_doc(rv, *d) == rv.push(*d));
        } else {
            assert(rv.len() == 0);
            assert(spec_insert_doc(rv, *d) == seq![*d]);
            assert(rv.push(*d) =~= seq![*d]);
        }
        assert(refs_view(run@.push(d)) =~= refs_view(run@).push(*d));
    }
    run.push(d);
    let ghost mid = refs_view(run@);
    let mut k: usize = tail.len();
    while k > 0
        invariant
            k <= tail@.len(),
            refs_view(run@) =~= mid + refs_view(tail@).skip(k as int).reverse(),
        decreases k,
    {
        proof {
            let tv = refs_view(tail@);
            assert(tv.skip(k as int - 1) =~= seq![tv[k as int - 1]] + tv.skip(k as int));
            assert(tv.skip(k as int - 1).reverse() =~= tv.skip(k as int).reverse().push(
                tv[k as int - 1],
            ));
            assert(refs_view(run@.push(tail@[k as int - 1])) =~= refs_view(run@).push(
                tv[k as int - 1],
            ));
        }
        k -= 1;
        run.push(tail[k]);
    }
    proof {
        assert(refs_view(tail@).skip(0).reverse() =~= refs_view(tail@).reverse());
        assert(refs_view(run@) =~= spec_insert_doc(orig, *d));
    }
}

} // verus!
