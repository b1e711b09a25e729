use vstd::prelude::*;
use vstd::string::StringExecFns;

use crate::attribute::{Attribute, AttributeArg};
use crate::diagnostic::Diagnostic;
use crate::span::Span;
use crate::text::str_eq;

verus! {

/// One derivable helper kind. A sum type derives `match` (a case-analysis
/// eliminator); a record type derives `open`, `getters` and `setters`.
#[derive(Clone, Copy, Debug, Hash, PartialEq, Eq, Structural)]
pub enum Derive {
    Match,
    Open,
    Getters,
    Setters,
}

impl Derive {
    /// The canonical lowercase name, used both to recognize a request and
    /// in diagnostic text.
    pub open spec fn spec_name(self) -> Seq<char> {
        match self {
            Derive::Match => "match"@,
            Derive::Open => "open"@,
            Derive::Getters => "getters"@,
            Derive::Setters => "setters"@,
        }
    }

    /// Renders the canonical name.
    pub fn name_text(&self) -> (r: String)
        ensures
            r@ == self.spec_name(),
    {
        match self {
            Derive::Match => String::from_str("match"),
            Derive::Open => String::from_str("open"),
            Derive::Getters => String::from_str("getters"),
            Derive::Setters => String::from_str("setters"),
        }
    }
}

/// The derive named by an identifier: exactly the four canonical names are
/// recognized.
pub open spec fn spec_string_to_derive(s: Seq<char>) -> Option<Derive> {
    if s == "match"@ {
        Some(Derive::Match)
    } else if s == "open"@ {
        Some(Derive::Open)
    } else if s == "getters"@ {
        Some(Derive::Getters)
    } else if s == "setters"@ {
        Some(Derive::Setters)
    } else {
        None
    }
}

/// Recognizes a derive name.
pub fn string_to_derive(name: &str) -> (r: Option<Derive>)
    ensures
        r == spec_string_to_derive(name@),
{
    if str_eq(name, "match") {
        Some(Derive::Match)
    } else if str_eq(name, "open") {
        Some(Derive::Open)
    } else if str_eq(name, "getters") {
        Some(Derive::Getters)
    } else if str_eq(name, "setters") {
        Some(Derive::Setters)
    } else {
        None
    }
}

/// The span bound to `key` in a request list, at its first binding.
pub open spec fn lookup_request(items: Seq<(Derive, Span)>, key: Derive) -> Option<Span>
    decreases items.len(),
{
    if items.len() == 0 {
        None
    } else if items[0].0 == key {
        Some(items[0].1)
    } else {
        lookup_request(items.drop_first(), key)
    }
}

/// The deduplicated derive requests of one attribute list: each requested
/// derive bound to the span of its first request, in order of first
/// request. A derive never holds two spans: a repeated request is
/// reported and does not overwrite the stored span.
pub struct DeriveRequestSet {
    items: Vec<(Derive, Span)>,
}

impl View for DeriveRequestSet {
    type V = Seq<(Derive, Span)>;

    closed spec fn view(&self) -> Seq<(Derive, Span)> {
        self.items@
    }
}

impl DeriveRequestSet {
    /// An empty request set.
    pub fn new() -> (r: DeriveRequestSet)
        ensures
            r@ == Seq::<(Derive, Span)>::empty(),
    {
        DeriveRequestSet { items: Vec::new() }
    }

    /// How many derives are requested.
    pub fn len(&self) -> (r: usize)
        ensures
            r == self@.len(),
    {
        self.items.len()
    }

    /// The request at one position, in order of first request.
    pub fn item_at(&self, i: usize) -> (r: (Derive, Span))
        requires
            i < self@.len(),
        ensures
            r == self@[i as int],
    {
        self.items[i]
    }

    /// The span stored for a derive, if it was requested.
    pub fn get(&self, key: Derive) -> (r: Option<Span>)
        ensures
            r == lookup_request(self@, key),
    {
        let mut i: usize = 0;
        proof {
            assert(self.items@.skip(0) =~= self.items@);
        }
        while i < self.items.len()
            invariant
                i <= self.items@.len(),
                lookup_request(self.items@.skip(i as int), key) == lookup_request(self@, key),
            decreases self.items@.len() - i,
        {
            proof {
                assert(self.items@.skip(i as int)[0] == self.items@[i as int]);
                assert(self.items@.skip(i as int).drop_first() =~= self.items@.skip(i as int + 1));
            }
            if self.items[i].0 == key {
                return Some(self.items[i].1);
            }
            i += 1;
        }
        None
    }
}

/// The state of one validation pass over an attribute list: the requests
/// collected so far, the diagnostics produced so far, and whether any
/// problem was found. Problems accumulate; the pass never stops early.
pub struct ScanState {
    pub items: Seq<(Derive, Span)>,
    pub diags: Seq<Diagnostic>,
    pub failed: bool,
}

/// One attribute argument processed: a plain identifier naming a derive is
/// collected, or reported as duplicated if that derive was already
/// requested (keeping the first span); anything else is reported as an
/// invalid argument. Every report marks the pass failed.
pub open spec fn scan_arg(st: ScanState, arg: AttributeArg) -> ScanState {
    match arg {
        AttributeArg::Ident { span, text } => match spec_string_to_derive(text@) {
            Some(key) => match lookup_request(st.items, key) {
                Some(first) => ScanState {
                    items: st.items,
                    diags: st.diags.push(
                        Diagnostic::DuplicatedAttributeArgument { first, second: span },
                    ),
                    failed: true,
                },
                None => ScanState { items: st.items.push((key, span)), diags: st.diags, failed: st.failed },
            },
            None => ScanState {
                items: st.items,
                diags: st.diags.push(Diagnostic::InvalidAttributeArgument { place: span }),
                failed: true,
            },
        },
        AttributeArg::Other { span } => ScanState {
            items: st.items,
            diags: st.diags.push(Diagnostic::InvalidAttributeArgument { place: span }),
            failed: true,
        },
    }
}

/// The arguments of one attribute processed in order.
pub open spec fn scan_args(st: ScanState, args: Seq<AttributeArg>) -> ScanState
    decreases args.len(),
{
    if args.len() == 0 {
        st
    } else {
        scan_args(scan_arg(st, args[0]), args.drop_first())
    }
}

/// One attribute processed: an attribute not named `derive` is ignored; a
/// derive attribute written with an attached value is reported first (the
/// attribute does not take one), and its arguments are still processed.
pub open spec fn scan_attr(st: ScanState, attr: Attribute) -> ScanState {
    if attr.name@ != "derive"@ {
        st
    } else {
        let st1 = match attr.value {
            Some(v) => ScanState {
                items: st.items,
                diags: st.diags.push(Diagnostic::AttributeDoesNotExpectEqual { place: v }),
                failed: true,
            },
            None => st,
        };
        scan_args(st1, attr.args@)
    }
}

/// An attribute list processed in order.
pub open spec fn scan_attrs(st: ScanState, attrs: Seq<Attribute>) -> ScanState
    decreases attrs.len(),
{
    if attrs.len() == 0 {
        st
    } else {
        scan_attrs(scan_attr(st, attrs[0]), attrs.drop_first())
    }
}

/// The initial state of a validation pass.
pub open spec fn initial_scan_state() -> ScanState {
    ScanState { items: Seq::empty(), diags: Seq::empty(), failed: false }
}

/// The full validation pass over one attribute list.
pub open spec fn derive_scan(attrs: Seq<Attribute>) -> ScanState {
    scan_attrs(initial_scan_state(), attrs)
}

/// Stores a derive request, or reports it as duplicated: if `key` is
/// already bound, the stored span is kept, a duplicated-argument
/// diagnostic carrying both spans is sent, and `dup` says so; otherwise
/// the request is appended and nothing is reported.
pub fn insert_or_report(
    diags: &mut Vec<Diagnostic>,
    set: &mut DeriveRequestSet,
    key: Derive,
    span: Span,
) -> (dup: bool)
    ensures
        dup == (lookup_request(old(set)@, key) is Some),
        dup ==> final(set)@ == old(set)@ && final(diags)@ == old(diags)@.push(
            Diagnostic::DuplicatedAttributeArgument {
                first: lookup_request(old(set)@, key)->0,
                second: span,
            },
        ),
        !dup ==> final(set)@ == old(set)@.push((key, span)) && final(diags)@ == old(diags)@,
{
    match set.get(key) {
        Some(first) => {
            diags.push(Diagnostic::DuplicatedAttributeArgument { first, second: span });
            true
        },
        None => {
            set.items.push((key, span));
            false
        },
    }
}

/// Validates one attribute list and extracts its derive requests.
///
/// Attributes not named `derive` are ignored. Every problem in the list is
/// reported to `diags` in source order — an attached value, an argument
/// that is no plain identifier or names no derive, a repeated derive — and
/// any problem makes the result `None`; otherwise the collected request
/// set is returned, possibly empty. Exactly the problems found are
/// reported: the result is `None` if and only if a diagnostic was sent.
pub fn expand_derive(diags: &mut Vec<Diagnostic>, attrs: &Vec<Attribute>) -> (r: Option<
    DeriveRequestSet,
>)
    ensures
        final(diags)@ == old(diags)@ + derive_scan(attrs@).diags,
        r is Some <==> !derive_scan(attrs@).failed,
        r is Some ==> r->0@ == derive_scan(attrs@).items,
        r is None <==> final(diags)@.len() > old(diags)@.len(),
{
    let mut failed = false;
    let mut set = DeriveRequestSet::new();
    let ghost mut st = initial_scan_state();
    let mut i: usize = 0;
    proof {
        assert(attrs@.skip(0) =~= attrs@);
    }
    while i < attrs.len()
        invariant
            i <= attrs@.len(),
            set@ == st.items,
            diags@ == old(diags)@ + st.diags,
            failed == st.failed,
            scan_attrs(st, attrs@.skip(i as int)) == derive_scan(attrs@),
        decreases attrs@.len() - i,
    {
        proof {
            assert(attrs@.skip(i as int)[0] == attrs@[i as int]);
            assert(attrs@.skip(i as int).drop_first() =~= attrs@.skip(i as int + 1));
        }
        let attr = &attrs[i];
        if str_eq(attr.name.as_str(), "derive") {
            let ghost st1 = if attr.value is Some {
                ScanState {
                    items: st.items,
                    diags: st.diags.push(
                        Diagnostic::AttributeDoesNotExpectEqual { place: attr.value->0 },
                    ),
                    failed: true,
                }
            } else {
                st
            };
            match &attr.value {
                Some(v) => {
                    diags.push(Diagnostic::AttributeDoesNotExpectEqual { place: *v });
                    failed = true;
                },
                None => {},
            }
            let mut j: usize = 0;
            let ghost mut stj = st1;
            proof {
                assert(attr.args@.skip(0) =~= attr.args@);
            }
            while j < attr.args.len()
                invariant
                    j <= attr.args@.len(),
                    set@ == stj.items,
                    diags@ == old(diags)@ + stj.diags,
                    failed == stj.failed,
                    scan_args(stj, attr.args@.skip(j as int)) == scan_args(st1, attr.args@),
                decreases attr.args@.len() - j,
            {
                proof {
                    assert(attr.args@.skip(j as int)[0] == attr.args@[j as int]);
                    assert(attr.args@.skip(j as int).drop_first() =~= attr.args@.skip(
                        j as int + 1,
                    ));
                }
                match &attr.args[j] {
                    AttributeArg::Ident { span, text } => {
                        match string_to_derive(text.as_str()) {
                            Some(key) => {
                                let dup = insert_or_report(diags, &mut set, key, *span);
                                if dup {
                                    failed = true;
                                }
                            },
                            None => {
                                diags.push(Diagnostic::InvalidAttributeArgument { place: *span });
                                failed = true;
                            },
                        }
                    },
                    AttributeArg::Other { span } => {
                        diags.push(Diagnostic::InvalidAttributeArgument { place: *span });
                        failed = true;
                    },
                }
                proof {
                    stj = scan_arg(stj, attr.args@[j as int]);
                }
                j += 1;
            }
            proof {
                assert(attr.args@.skip(attr.args@.len() as int) =~= Seq::<AttributeArg>::empty());
                st = scan_attr(st, attrs@[i as int]);
                assert(st == stj);
            }
        } else {
            proof {
                st = scan_attr(st, attrs@[i as int]);
            }
        }
        i += 1;
    }
    proof {
        assert(attrs@.skip(attrs@.len() as int) =~= Seq::<Attribute>::empty());
        lemma_scan_failed_iff_diags(attrs@);
    }
    if failed {
        None
    } else {
        Some(set)
    }
}

/// Whether a scan state is consistent: it is marked failed exactly when it
/// holds a diagnostic.
pub open spec fn scan_state_consistent(st: ScanState) -> bool {
    st.failed <==> st.diags.len() > 0
}

proof fn lemma_scan_args_consistent(st: ScanState, args: Seq<AttributeArg>)
    requires
        scan_state_consistent(st),
    ensures
        scan_state_consistent(scan_args(st, args)),
    decreases args.len(),
{
    if args.len() > 0 {
        lemma_scan_args_consistent(scan_arg(st, args[0]), args.drop_first());
    }
}

proof fn lemma_scan_attrs_consistent(st: ScanState, attrs: Seq<Attribute>)
    requires
        scan_state_consistent(st),
    ensures
        scan_state_consistent(scan_attrs(st, attrs)),
    decreases attrs.len(),
{
    if attrs.len() > 0 {
        let st1 = scan_attr(st, attrs[0]);
        if attrs[0].name@ == "derive"@ {
            let stv = match attrs[0].value {
                Some(v) => ScanState {
                    items: st.items,
                    diags: st.diags.push(
                        Diagnostic::AttributeDoesNotExpectEqual { place: v },
                    ),
                    failed: true,
                },
                None => st,
            };
            lemma_scan_args_consistent(stv, attrs[0].args@);
        }
        lemma_scan_attrs_consistent(st1, attrs.drop_first());
    }
}

/// A validation pass fails exactly when it reports something.
pub proof fn lemma_scan_failed_iff_diags(attrs: Seq<Attribute>)
    ensures
        derive_scan(attrs).failed <==> derive_scan(attrs).diags.len() > 0,
{
    lemma_scan_attrs_consistent(initial_scan_state(), attrs);
}

/// An attribute list with no derive markers yields the empty request set,
/// no diagnostics, and no failure.
pub proof fn lemma_no_derive_markers(attrs: Seq<Attribute>)
    requires
        forall|i: int| 0 <= i < attrs.len() ==> (#[trigger] attrs[i]).name@ != "derive"@,
    ensures
        !derive_scan(attrs).failed,
        derive_scan(attrs).items == Seq::<(Derive, Span)>::empty(),
        derive_scan(attrs).diags == Seq::<Diagnostic>::empty(),
{
    lemma_scan_attrs_no_markers(initial_scan_state(), attrs);
}

proof fn lemma_scan_attrs_no_markers(st: ScanState, attrs: Seq<Attribute>)
    requires
        forall|i: int| 0 <= i < attrs.len() ==> (#[trigger] attrs[i]).name@ != "derive"@,
    ensures
        scan_attrs(st, attrs) == st,
    decreases attrs.len(),
{
    if attrs.len() > 0 {
        assert(attrs[0].name@ != "derive"@);
        assert forall|i: int| 0 <= i < attrs.drop_first().len() implies (#[trigger] attrs.drop_first()[i]).name@
            != "derive"@ by {
            assert(attrs.drop_first()[i] == attrs[i + 1]);
        }
        lemma_scan_attrs_no_markers(st, attrs.drop_first());
    }
}

/// A derive attribute with an attached value and no arguments fails the
/// pass with exactly one diagnostic, the value-not-expected report at the
/// value's place.
pub proof fn lemma_value_not_expected(attr: Attribute, v: Span)
    requires
        attr.name@ == "derive"@,
        attr.value == Some(v),
        attr.args@.len() == 0,
    ensures
        derive_scan(seq![attr]).failed,
        derive_scan(seq![attr]).diags == seq![
            Diagnostic::AttributeDoesNotExpectEqual { place: v },
        ],
        derive_scan(seq![attr]).items == Seq::<(Derive, Span)>::empty(),
{
    let s = seq![attr];
    assert(s[0] == attr);
    assert(s.drop_first() =~= Seq::<Attribute>::empty());
    let st1 = scan_attr(initial_scan_state(), attr);
    assert(scan_attrs(st1, Seq::<Attribute>::empty()) == st1);
    assert(derive_scan(s) == st1);
    assert(Seq::<Diagnostic>::empty().push(Diagnostic::AttributeDoesNotExpectEqual { place: v })
        =~= seq![Diagnostic::AttributeDoesNotExpectEqual { place: v }]);
}

proof fn lemma_lookup_after_push(items: Seq<(Derive, Span)>, p: (Derive, Span), key: Derive)
    requires
        lookup_request(items, key) is Some,
    ensures
        lookup_request(items.push(p), key) == lookup_request(items, key),
    decreases items.len(),
{
    if items.len() > 0 {
        assert(items.push(p)[0] == items[0]);
        if items[0].0 != key {
            assert(items.push(p).drop_first() =~= items.drop_first().push(p));
            lemma_lookup_after_push(items.drop_first(), p, key);
        } else {
            assert(items.push(p).drop_first() =~= items.drop_first().push(p));
        }
    }
}

proof fn lemma_scan_args_keeps_binding(st: ScanState, args: Seq<AttributeArg>, key: Derive)
    requires
        lookup_request(st.items, key) is Some,
    ensures
        lookup_request(scan_args(st, args).items, key) == lookup_request(st.items, key),
    decreases args.len(),
{
    if args.len() > 0 {
        let st1 = scan_arg(st, args[0]);
        if st1.items != st.items {
            match args[0] {
                AttributeArg::Ident { span, text } => {
                    let k2 = spec_string_to_derive(text@)->0;
                    lemma_lookup_after_push(st.items, (k2, span), key);
                },
                AttributeArg::Other { .. } => {},
            }
        }
        lemma_scan_args_keeps_binding(st1, args.drop_first(), key);
    }
}

/// A derive request, once stored, is never overwritten: whatever arguments
/// and attributes follow in the list, the span stored for a derive stays
/// the span of its first request.
pub proof fn lemma_first_request_kept(st: ScanState, attrs: Seq<Attribute>, key: Derive)
    requires
        lookup_request(st.items, key) is Some,
    ensures
        lookup_request(scan_attrs(st, attrs).items, key) == lookup_request(st.items, key),
    decreases attrs.len(),
{
    if attrs.len() > 0 {
        let st1 = scan_attr(st, attrs[0]);
        if attrs[0].name@ == "derive"@ {
            let stv = match attrs[0].value {
                Some(v) => ScanState {
                    items: st.items,
                    diags: st.diags.push(
                        Diagnostic::AttributeDoesNotExpectEqual { place: v },
                    ),
                    failed: true,
                },
                None => st,
            };
            assert(stv.items == st.items);
            lemma_scan_args_keeps_binding(stv, attrs[0].args@, key);
        }
        lemma_first_request_kept(st1, attrs.drop_first(), key);
    }
}

} // verus!
