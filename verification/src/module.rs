use vstd::prelude::*;

use crate::attribute::Attribute;
use crate::book::Entry;
use crate::diagnostic::Diagnostic;
use crate::expand::{derive_scan, expand_derive, initial_scan_state, Derive, ScanState};
use crate::span::Span;
use crate::text::str_eq;

verus! {

/// A sum-type declaration: a name and a closed set of constructors. The
/// constructors are read only by the synthesis collaborators.
pub struct SumTypeDecl {
    pub name: String,
    pub name_span: Span,
    pub attrs: Vec<Attribute>,
    pub constructors: Vec<String>,
}

/// A record-type declaration: a name and its named fields. The fields are
/// read only by the synthesis collaborators, which synthesize one getter
/// or setter entry per field.
pub struct RecordDecl {
    pub name: String,
    pub name_span: Span,
    pub attrs: Vec<Attribute>,
    pub fields: Vec<String>,
}

/// One top-level item of a compilation unit: a type definition still to be
/// expanded, or an already-elaborated entry, which expansion passes
/// through untouched.
pub enum TopLevel {
    SumType(SumTypeDecl),
    RecordType(RecordDecl),
    Entry(Entry),
}

/// A compilation unit: an ordered, append-only sequence of top-level
/// items. Expansion only ever appends synthesized entries at the end.
pub struct Module {
    pub entries: Vec<TopLevel>,
}

/// The synthesis collaborators that build the bodies of derived helpers.
/// They are supplied by the surrounding compiler: this crate validates and
/// dispatches the requests and merges the results back in, treating what
/// the collaborators return as opaque. A match request may also produce
/// diagnostics, which the expander forwards.
pub trait DeriveProvider {
    /// A case-analysis eliminator for a sum type.
    fn derive_match(&self, span: Span, def: &SumTypeDecl) -> (Entry, Vec<Diagnostic>);

    /// The generic open helper for a record type.
    fn derive_open(&self, span: Span, def: &RecordDecl) -> Entry;

    /// One field accessor per field of a record type.
    fn derive_getters(&self, span: Span, def: &RecordDecl) -> Vec<Entry>;

    /// One field mutator per field of a record type.
    fn derive_setters(&self, span: Span, def: &RecordDecl) -> Vec<Entry>;
}

/// Registration of one synthesized entry in the pending collection: the
/// collection is keyed by entry name, and a later entry with an already
/// registered name replaces the earlier one, keeping its position.
pub open spec fn spec_register(pending: Seq<Entry>, e: Entry) -> Seq<Entry>
    decreases pending.len(),
{
    if pending.len() == 0 {
        seq![e]
    } else if pending[0].name@ == e.name@ {
        seq![e] + pending.drop_first()
    } else {
        seq![pending[0]] + spec_register(pending.drop_first(), e)
    }
}

proof fn lemma_register_at(s: Seq<Entry>, e: Entry, j: int)
    requires
        0 <= j < s.len(),
        s[j].name@ == e.name@,
        forall|k: int| 0 <= k < j ==> (#[trigger] s[k]).name@ != e.name@,
    ensures
        spec_register(s, e) == s.update(j, e),
    decreases s.len(),
{
    if j == 0 {
        assert(spec_register(s, e) =~= s.update(0, e));
    } else {
        assert(s.drop_first()[j - 1] == s[j]);
        assert forall|k: int| 0 <= k < j - 1 implies (#[trigger] s.drop_first()[k]).name@
            != e.name@ by {
            assert(s.drop_first()[k] == s[k + 1]);
        }
        lemma_register_at(s.drop_first(), e, j - 1);
        assert(spec_register(s, e) =~= s.update(j, e));
    }
}

proof fn lemma_register_absent(s: Seq<Entry>, e: Entry)
    requires
        forall|k: int| 0 <= k < s.len() ==> (#[trigger] s[k]).name@ != e.name@,
    ensures
        spec_register(s, e) == s.push(e),
    decreases s.len(),
{
    if s.len() == 0 {
        assert(spec_register(s, e) =~= s.push(e));
    } else {
        assert forall|k: int| 0 <= k < s.drop_first().len() implies (#[trigger] s.drop_first()[k]).name@
            != e.name@ by {
            assert(s.drop_first()[k] == s[k + 1]);
        }
        lemma_register_absent(s.drop_first(), e);
        assert(spec_register(s, e) =~= s.push(e));
    }
}

/// Registers one synthesized entry in the pending collection.
fn register_entry(pending: &mut Vec<Entry>, e: Entry)
    ensures
        final(pending)@ == spec_register(old(pending)@, e),
        final(pending)@.len() >= old(pending)@.len(),
        final(pending)@.len() >= 1,
{
    let mut i: usize = 0;
    while i < pending.len()
        invariant
            i <= pending@.len(),
            pending@ == old(pending)@,
            forall|k: int| 0 <= k < i ==> (#[trigger] pending@[k]).name@ != e.name@,
        decreases pending@.len() - i,
    {
        if str_eq(pending[i].name.as_str(), e.name.as_str()) {
            proof {
                lemma_register_at(pending@, e, i as int);
            }
            pending.set(i, e);
            return ;
        }
        i += 1;
    }
    proof {
        lemma_register_absent(pending@, e);
    }
    pending.push(e);
}

/// Fold of registration over a list of synthesized entries, in order.
pub open spec fn spec_register_all(pending: Seq<Entry>, es: Seq<Entry>) -> Seq<Entry>
    decreases es.len(),
{
    if es.len() == 0 {
        pending
    } else {
        spec_register_all(spec_register(pending, es[0]), es.drop_first())
    }
}

/// Registering entries whose names are pairwise distinct and not yet
/// registered grows the pending collection by exactly one entry per
/// registered one. In particular, a getters or setters request over a
/// record with distinctly and freshly named fields contributes exactly
/// one entry per field.
pub proof fn lemma_register_fresh_grows(pending: Seq<Entry>, es: Seq<Entry>)
    requires
        forall|a: int, b: int|
            0 <= a < b < es.len() ==> (#[trigger] es[a]).name@ != (#[trigger] es[b]).name@,
        forall|a: int, b: int|
            0 <= a < pending.len() && 0 <= b < es.len() ==> (#[trigger] pending[a]).name@ != (
            #[trigger] es[b]).name@,
    ensures
        spec_register_all(pending, es).len() == pending.len() + es.len(),
    decreases es.len(),
{
    if es.len() > 0 {
        assert forall|a: int| 0 <= a < pending.len() implies (#[trigger] pending[a]).name@
            != es[0].name@ by {}
        lemma_register_absent(pending, es[0]);
        let pending1 = pending.push(es[0]);
        let es1 = es.drop_first();
        assert forall|a: int, b: int| 0 <= a < b < es1.len() implies (#[trigger] es1[a]).name@ != (
        #[trigger] es1[b]).name@ by {
            assert(es1[a] == es[a + 1]);
            assert(es1[b] == es[b + 1]);
        }
        assert forall|a: int, b: int|
            0 <= a < pending1.len() && 0 <= b < es1.len() implies (#[trigger] pending1[a]).name@
            != (#[trigger] es1[b]).name@ by {
            assert(es1[b] == es[b + 1]);
            if a < pending.len() {
                assert(pending1[a] == pending[a]);
            } else {
                assert(pending1[a] == es[0]);
            }
        }
        lemma_register_fresh_grows(pending1, es1);
    }
}

/// The derives that fit a definition's shape: a sum type derives `match`;
/// a record type derives `open`, `getters` and `setters`. An item that is
/// no definition carries no requests.
pub open spec fn derive_fits(item: TopLevel, kind: Derive) -> bool {
    match item {
        TopLevel::SumType(_) => kind == Derive::Match,
        TopLevel::RecordType(_) => kind != Derive::Match,
        TopLevel::Entry(_) => true,
    }
}

/// Whether `diags` holds a cannot-derive diagnostic for `kind` at `place`.
pub open spec fn contains_cannot_derive(diags: Seq<Diagnostic>, kind: Derive, place: Span) -> bool {
    exists|j: int| 0 <= j < diags.len() && is_cannot_derive(#[trigger] diags[j], kind, place)
}

/// Whether one diagnostic is the cannot-derive report for `kind` at `place`.
pub open spec fn is_cannot_derive(d: Diagnostic, kind: Derive, place: Span) -> bool {
    match d {
        Diagnostic::CannotDerive { name, place: p } => name@ == kind.spec_name() && p == place,
        _ => false,
    }
}

/// The validation pass of the attribute list of a definition; an item that
/// is no definition validates to the empty pass.
pub open spec fn item_scan(item: TopLevel) -> ScanState {
    match item {
        TopLevel::SumType(sum) => derive_scan(sum.attrs@),
        TopLevel::RecordType(rec) => derive_scan(rec.attrs@),
        TopLevel::Entry(_) => derive_scan(Seq::empty()),
    }
}

/// Every derive request of `item` that does not fit its shape has a
/// cannot-derive diagnostic in `diags` at the request's span — provided
/// the item's attribute list validated (when it does not, expansion skips
/// the item's requests altogether).
pub open spec fn misfits_reported(item: TopLevel, diags: Seq<Diagnostic>) -> bool {
    !item_scan(item).failed ==> forall|j: int|
        0 <= j < item_scan(item).items.len() && !derive_fits(
            item,
            (#[trigger] item_scan(item).items[j]).0,
        ) ==> contains_cannot_derive(diags, item_scan(item).items[j].0, item_scan(item).items[j].1)
}

/// Whether an item carries a validated derive request whose collaborator
/// synthesizes at least one entry unconditionally: `match` on a sum type
/// or `open` on a record type (a getters or setters request synthesizes
/// one entry per field, which may be none).
pub open spec fn has_certain_synthesis(item: TopLevel) -> bool {
    match item {
        TopLevel::SumType(sum) => !derive_scan(sum.attrs@).failed && exists|j: int|
            0 <= j < derive_scan(sum.attrs@).items.len() && (#[trigger] derive_scan(
                sum.attrs@,
            ).items[j]).0 == Derive::Match,
        TopLevel::RecordType(rec) => !derive_scan(rec.attrs@).failed && exists|j: int|
            0 <= j < derive_scan(rec.attrs@).items.len() && (#[trigger] derive_scan(
                rec.attrs@,
            ).items[j]).0 == Derive::Open,
        TopLevel::Entry(_) => false,
    }
}

proof fn lemma_contains_monotone(d1: Seq<Diagnostic>, d2: Seq<Diagnostic>, kind: Derive, place: Span)
    requires
        contains_cannot_derive(d1, kind, place),
        d1.len() <= d2.len(),
        d2.subrange(0, d1.len() as int) == d1,
    ensures
        contains_cannot_derive(d2, kind, place),
{
    let j = choose|j: int| 0 <= j < d1.len() && is_cannot_derive(#[trigger] d1[j], kind, place);
    assert(d2.subrange(0, d1.len() as int)[j] == d2[j]);
    assert(is_cannot_derive(d2[j], kind, place));
}

proof fn lemma_misfits_monotone(item: TopLevel, d1: Seq<Diagnostic>, d2: Seq<Diagnostic>)
    requires
        misfits_reported(item, d1),
        d1.len() <= d2.len(),
        d2.subrange(0, d1.len() as int) == d1,
    ensures
        misfits_reported(item, d2),
{
    if !item_scan(item).failed {
        assert forall|j: int|
            0 <= j < item_scan(item).items.len() && !derive_fits(
                item,
                (#[trigger] item_scan(item).items[j]).0,
            ) implies contains_cannot_derive(
            d2,
            item_scan(item).items[j].0,
            item_scan(item).items[j].1,
        ) by {
            lemma_contains_monotone(d1, d2, item_scan(item).items[j].0, item_scan(item).items[j].1);
        }
    }
}

/// Expands the derive requests of every type definition in a module.
///
/// Each definition's attribute list is validated; a list that fails to
/// validate marks the expansion failed and its definition synthesizes
/// nothing, but the rest of the module is still processed. A request that
/// fits the definition's shape is dispatched to the matching collaborator
/// of `provider` and the synthesized entries are collected, keyed by their
/// names (a name synthesized twice keeps the later entry); a request that
/// does not fit is reported as cannot-derive at the request's span. All
/// diagnostics a match collaborator produces are forwarded and mark the
/// expansion failed. After every item is processed, the collected entries
/// are appended to the module. The result reports failure, and it is true
/// exactly when some diagnostic was sent during the pass.
#[verifier::rlimit(60)]
pub fn expand_module<P: DeriveProvider>(
    provider: &P,
    diags: &mut Vec<Diagnostic>,
    module: &mut Module,
) -> (failed: bool)
    ensures
        final(module).entries@.len() >= old(module).entries@.len(),
        final(module).entries@.subrange(0, old(module).entries@.len() as int) == old(module).entries@,
        forall|i: int|
            old(module).entries@.len() <= i < final(module).entries@.len() ==> (#[trigger] final(module).entries@[i]) is Entry,
        final(diags)@.len() >= old(diags)@.len(),
        final(diags)@.subrange(0, old(diags)@.len() as int) == old(diags)@,
        failed <==> final(diags)@.len() > old(diags)@.len(),
        forall|i: int|
            0 <= i < old(module).entries@.len() ==> misfits_reported(
                #[trigger] old(module).entries@[i],
                final(diags)@,
            ),
        (forall|i: int|
            0 <= i < old(module).entries@.len() ==> (#[trigger] old(module).entries@[i]) is Entry)
            ==> final(module).entries@ == old(module).entries@ && final(diags)@ == old(diags)@
            && !failed,
        (exists|i: int|
            0 <= i < old(module).entries@.len() && has_certain_synthesis(
                #[trigger] old(module).entries@[i],
            )) ==> final(module).entries@.len() > old(module).entries@.len(),
{
    let mut failed = false;
    let mut pending: Vec<Entry> = Vec::new();
    let n = module.entries.len();
    let mut i: usize = 0;
    while i < n
        invariant
            i <= n,
            n == module.entries@.len(),
            module.entries@ == old(module).entries@,
            diags@.len() >= old(diags)@.len(),
            diags@.subrange(0, old(diags)@.len() as int) == old(diags)@,
            failed <==> diags@.len() > old(diags)@.len(),
            forall|i2: int|
                0 <= i2 < i ==> misfits_reported(#[trigger] module.entries@[i2], diags@),
            (forall|i2: int| 0 <= i2 < i ==> (#[trigger] module.entries@[i2]) is Entry) ==> (
            pending@.len() == 0 && diags@ == old(diags)@ && !failed),
            (exists|i2: int|
                0 <= i2 < i && has_certain_synthesis(#[trigger] module.entries@[i2]))
                ==> pending@.len() >= 1,
        decreases n - i,
    {
        let ghost diags_before_item = diags@;
        match &module.entries[i] {
            TopLevel::SumType(sum) => {
                match expand_derive(diags, &sum.attrs) {
                    Some(set) => {
                        let m = set.len();
                        let mut j: usize = 0;
                        while j < m
                            invariant
                                j <= m,
                                m == set@.len(),
                                set@ == derive_scan(sum.attrs@).items,
                                module.entries@ == old(module).entries@,
                                i < module.entries@.len(),
                                module.entries@[i as int] == TopLevel::SumType(*sum),
                                diags@.len() >= old(diags)@.len(),
                                diags@.subrange(0, old(diags)@.len() as int) == old(diags)@,
                                failed <==> diags@.len() > old(diags)@.len(),
                                forall|i2: int|
                                    0 <= i2 < i ==> misfits_reported(
                                        #[trigger] module.entries@[i2],
                                        diags@,
                                    ),
                                forall|j2: int|
                                    0 <= j2 < j && (#[trigger] set@[j2]).0 != Derive::Match
                                        ==> contains_cannot_derive(diags@, set@[j2].0, set@[j2].1),
                                ((exists|i2: int|
                                    0 <= i2 < i && has_certain_synthesis(
                                        #[trigger] module.entries@[i2],
                                    )) || (exists|j2: int|
                                    0 <= j2 < j && (#[trigger] set@[j2]).0 == Derive::Match))
                                    ==> pending@.len() >= 1,
                            decreases m - j,
                        {
                            let (key, sp) = set.item_at(j);
                            if key == Derive::Match {
                                let (res, mut errs) = provider.derive_match(sum.name_span, sum);
                                register_entry(&mut pending, res);
                                while errs.len() > 0
                                    invariant
                                        diags@.len() >= old(diags)@.len(),
                                        diags@.subrange(0, old(diags)@.len() as int) == old(diags)@,
                                        failed <==> diags@.len() > old(diags)@.len(),
                                        forall|i2: int|
                                            0 <= i2 < i ==> misfits_reported(
                                                #[trigger] module.entries@[i2],
                                                diags@,
                                            ),
                                        forall|j2: int|
                                            0 <= j2 < j && (#[trigger] set@[j2]).0 != Derive::Match
                                                ==> contains_cannot_derive(
                                                diags@,
                                                set@[j2].0,
                                                set@[j2].1,
                                            ),
                                    decreases errs@.len(),
                                {
                                    let ghost d1 = diags@;
                                    let e = errs.remove(0);
                                    diags.push(e);
                                    failed = true;
                                    proof {
                                        assert(diags@.subrange(0, d1.len() as int) =~= d1);
                                        assert forall|i2: int| 0 <= i2 < i implies misfits_reported(
                                            #[trigger] module.entries@[i2],
                                            diags@,
                                        ) by {
                                            lemma_misfits_monotone(module.entries@[i2], d1, diags@);
                                        }
                                        assert forall|j2: int|
                                            0 <= j2 < j && (#[trigger] set@[j2]).0 != Derive::Match
                                            implies contains_cannot_derive(
                                            diags@,
                                            set@[j2].0,
                                            set@[j2].1,
                                        ) by {
                                            lemma_contains_monotone(d1, diags@, set@[j2].0, set@[j2].1);
                                        }
                                    }
                                }
                            } else {
                                let ghost d1 = diags@;
                                diags.push(
                                    Diagnostic::CannotDerive { name: key.name_text(), place: sp },
                                );
                                failed = true;
                                proof {
                                    assert(is_cannot_derive(diags@[diags@.len() - 1], key, sp));
                                    assert(diags@.subrange(0, d1.len() as int) =~= d1);
                                    assert forall|i2: int| 0 <= i2 < i implies misfits_reported(
                                        #[trigger] module.entries@[i2],
                                        diags@,
                                    ) by {
                                        lemma_misfits_monotone(module.entries@[i2], d1, diags@);
                                    }
                                    assert forall|j2: int|
                                        0 <= j2 < j + 1 && (#[trigger] set@[j2]).0 != Derive::Match
                                        implies contains_cannot_derive(
                                        diags@,
                                        set@[j2].0,
                                        set@[j2].1,
                                    ) by {
                                        if j2 < j {
                                            lemma_contains_monotone(d1, diags@, set@[j2].0, set@[j2].1);
                                        }
                                    }
                                }
                            }
                            j += 1;
                        }
                        proof {
                            let item = module.entries@[i as int];
                            assert forall|jx: int|
                                0 <= jx < item_scan(item).items.len() && !derive_fits(
                                    item,
                                    (#[trigger] item_scan(item).items[jx]).0,
                                ) implies contains_cannot_derive(
                                diags@,
                                item_scan(item).items[jx].0,
                                item_scan(item).items[jx].1,
                            ) by {
                                assert(item_scan(item).items == set@);
                                assert((#[trigger] set@[jx]).0 != Derive::Match);
                            }
                            assert(misfits_reported(item, diags@));
                            if has_certain_synthesis(item) {
                                let jw = choose|jw: int|
                                    0 <= jw < derive_scan(sum.attrs@).items.len() && (
                                    #[trigger] derive_scan(sum.attrs@).items[jw]).0
                                        == Derive::Match;
                                assert(0 <= jw < set@.len() && (#[trigger] set@[jw]).0
                                    == Derive::Match);
                                assert(pending@.len() >= 1);
                            }
                        }
                    },
                    None => {
                        failed = true;
                        proof {
                            assert(diags@.subrange(0, diags_before_item.len() as int)
                                =~= diags_before_item);
                            assert forall|i2: int| 0 <= i2 < i implies misfits_reported(
                                #[trigger] module.entries@[i2],
                                diags@,
                            ) by {
                                lemma_misfits_monotone(
                                    module.entries@[i2],
                                    diags_before_item,
                                    diags@,
                                );
                            }
                            assert(misfits_reported(module.entries@[i as int], diags@));
                        }
                    },
                }
            },
            TopLevel::RecordType(rec) => {
                match expand_derive(diags, &rec.attrs) {
                    Some(set) => {
                        let m = set.len();
                        let mut j: usize = 0;
                        while j < m
                            invariant
                                j <= m,
                                m == set@.len(),
                                set@ == derive_scan(rec.attrs@).items,
                                module.entries@ == old(module).entries@,
                                i < module.entries@.len(),
                                module.entries@[i as int] == TopLevel::RecordType(*rec),
                                diags@.len() >= old(diags)@.len(),
                                diags@.subrange(0, old(diags)@.len() as int) == old(diags)@,
                                failed <==> diags@.len() > old(diags)@.len(),
                                forall|i2: int|
                                    0 <= i2 < i ==> misfits_reported(
                                        #[trigger] module.entries@[i2],
                                        diags@,
                                    ),
                                forall|j2: int|
                                    0 <= j2 < j && (#[trigger] set@[j2]).0 == Derive::Match
                                        ==> contains_cannot_derive(diags@, set@[j2].0, set@[j2].1),
                                ((exists|i2: int|
                                    0 <= i2 < i && has_certain_synthesis(
                                        #[trigger] module.entries@[i2],
                                    )) || (exists|j2: int|
                                    0 <= j2 < j && (#[trigger] set@[j2]).0 == Derive::Open))
                                    ==> pending@.len() >= 1,
                            decreases m - j,
                        {
                            let (key, sp) = set.item_at(j);
                            match key {
                                Derive::Open => {
                                    let res = provider.derive_open(rec.name_span, rec);
                                    register_entry(&mut pending, res);
                                },
                                Derive::Getters => {
                                    let mut list = provider.derive_getters(rec.name_span, rec);
                                    let ghost pend_min = pending@.len();
                                    while list.len() > 0
                                        invariant
                                            pending@.len() >= pend_min,
                                        decreases list@.len(),
                                    {
                                        let e = list.remove(0);
                                        register_entry(&mut pending, e);
                                    }
                                },
                                Derive::Setters => {
                                    let mut list = provider.derive_setters(rec.name_span, rec);
                                    let ghost pend_min = pending@.len();
                                    while list.len() > 0
                                        invariant
                                            pending@.len() >= pend_min,
                                        decreases list@.len(),
                                    {
                                        let e = list.remove(0);
                                        register_entry(&mut pending, e);
                                    }
                                },
                                Derive::Match => {
                                    let ghost d1 = diags@;
                                    diags.push(
                                        Diagnostic::CannotDerive {
                                            name: key.name_text(),
                                            place: sp,
                                        },
                                    );
                                    failed = true;
                                    proof {
                                        assert(is_cannot_derive(diags@[diags@.len() - 1], key, sp));
                                        assert(diags@.subrange(0, d1.len() as int) =~= d1);
                                        assert forall|i2: int| 0 <= i2 < i implies misfits_reported(
                                            #[trigger] module.entries@[i2],
                                            diags@,
                                        ) by {
                                            lemma_misfits_monotone(module.entries@[i2], d1, diags@);
                                        }
                                        assert forall|j2: int|
                                            0 <= j2 < j + 1 && (#[trigger] set@[j2]).0 == Derive::Match
                                            implies contains_cannot_derive(
                                            diags@,
                                            set@[j2].0,
                                            set@[j2].1,
                                        ) by {
                                            if j2 < j {
                                                lemma_contains_monotone(d1, diags@, set@[j2].0, set@[j2].1);
                                            }
                                        }
                                    }
                                },
                            }
                            j += 1;
                        }
                        proof {
                            let item = module.entries@[i as int];
                            assert forall|jx: int|
                                0 <= jx < item_scan(item).items.len() && !derive_fits(
                                    item,
                                    (#[trigger] item_scan(item).items[jx]).0,
                                ) implies contains_cannot_derive(
                                diags@,
                                item_scan(item).items[jx].0,
                                item_scan(item).items[jx].1,
                            ) by {
                                assert(item_scan(item).items == set@);
                                assert((#[trigger] set@[jx]).0 == Derive::Match);
                            }
                            assert(misfits_reported(item, diags@));
                            if has_certain_synthesis(item) {
                                let jw = choose|jw: int|
                                    0 <= jw < derive_scan(rec.attrs@).items.len() && (
                                    #[trigger] derive_scan(rec.attrs@).items[jw]).0
                                        == Derive::Open;
                                assert(0 <= jw < set@.len() && (#[trigger] set@[jw]).0
                                    == Derive::Open);
                                assert(pending@.len() >= 1);
                            }
                        }
                    },
                    None => {
                        failed = true;
                        proof {
                            assert(diags@.subrange(0, diags_before_item.len() as int)
                                =~= diags_before_item);
                            assert forall|i2: int| 0 <= i2 < i implies misfits_reported(
                                #[trigger] module.entries@[i2],
                                diags@,
                            ) by {
                                lemma_misfits_monotone(
                                    module.entries@[i2],
                                    diags_before_item,
                                    diags@,
                                );
                            }
                            assert(misfits_reported(module.entries@[i as int], diags@));
                        }
                    },
                }
            },
            TopLevel::Entry(_) => {
                proof {
                    assert(derive_scan(Seq::<Attribute>::empty()) == initial_scan_state());
                    assert(misfits_reported(module.entries@[i as int], diags@));
                }
            },
        }
        i += 1;
    }
    let ghost diags_after_scan = diags@;
    let ghost n_after_scan = module.entries@.len();
    let ghost pend_after_scan = pending@.len();
    while pending.len() > 0
        invariant
            diags@ == diags_after_scan,
            module.entries@.len() + pending@.len() == n_after_scan + pend_after_scan,
            module.entries@.len() >= old(module).entries@.len(),
            module.entries@.subrange(0, old(module).entries@.len() as int) == old(module).entries@,
            forall|k: int|
                old(module).entries@.len() <= k < module.entries@.len() ==> (
                #[trigger] module.entries@[k]) is Entry,
            (forall|i2: int|
                0 <= i2 < old(module).entries@.len() ==> (#[trigger] old(module).entries@[i2]) is Entry) ==> (pending@.len() == 0 && module.entries@ == old(module).entries@),
        decreases pending@.len(),
    {
        let e = pending.remove(0);
        module.entries.push(TopLevel::Entry(e));
    }
    failed
}

} // verus!
