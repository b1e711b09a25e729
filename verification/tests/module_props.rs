use kind_core::attribute::{Attribute, AttributeArg};
use kind_core::book::Entry;
use kind_core::diagnostic::Diagnostic;
use kind_core::module::{DeriveProvider, Module, RecordDecl, SumTypeDecl, TopLevel};
use kind_core::module::expand_module;
use kind_core::span::Span;

fn sp(start: u64, end: u64) -> Span {
    Span { start, end }
}

fn derive_attr(args: Vec<(Span, &str)>) -> Attribute {
    Attribute {
        name: "derive".to_string(),
        value: None,
        args: args
            .into_iter()
            .map(|(span, text)| AttributeArg::Ident { span, text: text.to_string() })
            .collect(),
    }
}

fn stub_entry(name: String) -> Entry {
    Entry {
        name,
        kdln: None,
        args: vec![],
        tipo: "Type".to_string(),
        rules: vec![],
    }
}

fn sum_decl(name: &str, attrs: Vec<Attribute>) -> SumTypeDecl {
    SumTypeDecl {
        name: name.to_string(),
        name_span: sp(100, 101),
        attrs,
        constructors: vec!["mk".to_string()],
    }
}

fn record_decl(name: &str, attrs: Vec<Attribute>, fields: Vec<&str>) -> RecordDecl {
    RecordDecl {
        name: name.to_string(),
        name_span: sp(200, 201),
        attrs,
        fields: fields.into_iter().map(|f| f.to_string()).collect(),
    }
}

struct StubProvider;

impl DeriveProvider for StubProvider {
    fn derive_match(&self, _span: Span, def: &SumTypeDecl) -> (Entry, Vec<Diagnostic>) {
        (stub_entry(format!("{}.match", def.name)), vec![])
    }

    fn derive_open(&self, _span: Span, def: &RecordDecl) -> Entry {
        stub_entry(format!("{}.open", def.name))
    }

    fn derive_getters(&self, _span: Span, def: &RecordDecl) -> Vec<Entry> {
        def.fields.iter().map(|f| stub_entry(format!("{}.get.{}", def.name, f))).collect()
    }

    fn derive_setters(&self, _span: Span, def: &RecordDecl) -> Vec<Entry> {
        def.fields.iter().map(|f| stub_entry(format!("{}.set.{}", def.name, f))).collect()
    }
}

/// A provider whose match synthesis also reports a problem.
struct NoisyProvider;

impl DeriveProvider for NoisyProvider {
    fn derive_match(&self, span: Span, def: &SumTypeDecl) -> (Entry, Vec<Diagnostic>) {
        (
            stub_entry(format!("{}.match", def.name)),
            vec![Diagnostic::InvalidAttributeArgument { place: span }],
        )
    }

    fn derive_open(&self, _span: Span, def: &RecordDecl) -> Entry {
        stub_entry(format!("{}.open", def.name))
    }

    fn derive_getters(&self, _span: Span, def: &RecordDecl) -> Vec<Entry> {
        def.fields.iter().map(|f| stub_entry(format!("{}.get.{}", def.name, f))).collect()
    }

    fn derive_setters(&self, _span: Span, def: &RecordDecl) -> Vec<Entry> {
        def.fields.iter().map(|f| stub_entry(format!("{}.set.{}", def.name, f))).collect()
    }
}

fn appended_names(module: &Module, from: usize) -> Vec<String> {
    module.entries[from..]
        .iter()
        .map(|item| match item {
            TopLevel::Entry(e) => e.name.clone(),
            _ => panic!("expansion must append elaborated entries only"),
        })
        .collect()
}

#[test]
fn open_on_sum_type_cannot_derive() {
    let r1 = sp(1, 5);
    let decl = sum_decl("Pair", vec![derive_attr(vec![(r1, "open")])]);
    let mut module = Module { entries: vec![TopLevel::SumType(decl)] };
    let mut diags: Vec<Diagnostic> = Vec::new();
    let failed = expand_module(&StubProvider, &mut diags, &mut module);
    assert!(failed);
    assert_eq!(diags.len(), 1);
    assert_eq!(
        diags[0],
        Diagnostic::CannotDerive { name: "open".to_string(), place: r1 }
    );
    assert_eq!(module.entries.len(), 1);
}

#[test]
fn match_on_record_type_cannot_derive() {
    let r1 = sp(1, 5);
    let decl = record_decl("Point", vec![derive_attr(vec![(r1, "match")])], vec!["x"]);
    let mut module = Module { entries: vec![TopLevel::RecordType(decl)] };
    let mut diags: Vec<Diagnostic> = Vec::new();
    let failed = expand_module(&StubProvider, &mut diags, &mut module);
    assert!(failed);
    assert_eq!(
        diags,
        vec![Diagnostic::CannotDerive { name: "match".to_string(), place: r1 }]
    );
    assert_eq!(module.entries.len(), 1);
}

#[test]
fn getters_append_one_entry_per_field() {
    let decl = record_decl(
        "Point",
        vec![derive_attr(vec![(sp(1, 5), "getters")])],
        vec!["x", "y", "z"],
    );
    let mut module = Module { entries: vec![TopLevel::RecordType(decl)] };
    let mut diags: Vec<Diagnostic> = Vec::new();
    let failed = expand_module(&StubProvider, &mut diags, &mut module);
    assert!(!failed);
    assert!(diags.is_empty());
    assert_eq!(module.entries.len(), 4);
    let mut names = appended_names(&module, 1);
    names.sort();
    assert_eq!(names, vec!["Point.get.x", "Point.get.y", "Point.get.z"]);
}

#[test]
fn match_on_sum_type_appends_one_entry() {
    let decl = sum_decl("Bool", vec![derive_attr(vec![(sp(1, 5), "match")])]);
    let mut module = Module { entries: vec![TopLevel::SumType(decl)] };
    let mut diags: Vec<Diagnostic> = Vec::new();
    let failed = expand_module(&StubProvider, &mut diags, &mut module);
    assert!(!failed);
    assert!(diags.is_empty());
    assert_eq!(appended_names(&module, 1), vec!["Bool.match"]);
}

#[test]
fn match_collaborator_diagnostics_are_forwarded() {
    let decl = sum_decl("Odd", vec![derive_attr(vec![(sp(1, 5), "match")])]);
    let mut module = Module { entries: vec![TopLevel::SumType(decl)] };
    let mut diags: Vec<Diagnostic> = Vec::new();
    let failed = expand_module(&NoisyProvider, &mut diags, &mut module);
    assert!(failed);
    assert_eq!(diags.len(), 1);
    assert_eq!(appended_names(&module, 1), vec!["Odd.match"]);
}

#[test]
fn invalid_attributes_skip_synthesis_but_processing_continues() {
    let bad = sum_decl("Bad", vec![derive_attr(vec![(sp(1, 2), "nonsense")])]);
    let good = sum_decl("Good", vec![derive_attr(vec![(sp(3, 4), "match")])]);
    let mut module = Module { entries: vec![TopLevel::SumType(bad), TopLevel::SumType(good)] };
    let mut diags: Vec<Diagnostic> = Vec::new();
    let failed = expand_module(&StubProvider, &mut diags, &mut module);
    assert!(failed);
    assert_eq!(diags, vec![Diagnostic::InvalidAttributeArgument { place: sp(1, 2) }]);
    assert_eq!(appended_names(&module, 2), vec!["Good.match"]);
}

#[test]
fn elaborated_entries_pass_through_untouched() {
    let mut module = Module { entries: vec![TopLevel::Entry(stub_entry("Id".to_string()))] };
    let mut diags: Vec<Diagnostic> = Vec::new();
    let failed = expand_module(&StubProvider, &mut diags, &mut module);
    assert!(!failed);
    assert!(diags.is_empty());
    assert_eq!(module.entries.len(), 1);
}

#[test]
fn setters_and_open_register_by_name() {
    let decl = record_decl(
        "P",
        vec![derive_attr(vec![(sp(1, 2), "open"), (sp(3, 4), "setters")])],
        vec!["a", "b"],
    );
    let mut module = Module { entries: vec![TopLevel::RecordType(decl)] };
    let mut diags: Vec<Diagnostic> = Vec::new();
    let failed = expand_module(&StubProvider, &mut diags, &mut module);
    assert!(!failed);
    let mut names = appended_names(&module, 1);
    names.sort();
    assert_eq!(names, vec!["P.open", "P.set.a", "P.set.b"]);
}
