use vstd::prelude::*;
use vstd::string::StringExecFns;

use crate::book::{lookup_entry, Argument, Book, Entry, Operator, Rule, Term};
use crate::text::{char_from_u32, dec_text, push_char, str_eq, u64_to_dec, valid_char_code};

verus! {

/// The symbol the runtime's rewrite-rule language uses for each binary
/// operation.
pub open spec fn oper_text(oper: Operator) -> Seq<char> {
    match oper {
        Operator::Add => "+"@,
        Operator::Sub => "-"@,
        Operator::Mul => "*"@,
        Operator::Div => "/"@,
        Operator::Mod => "%"@,
        Operator::And => "&"@,
        Operator::Or => "|"@,
        Operator::Xor => "^"@,
        Operator::Shl => "<<"@,
        Operator::Shr => ">>"@,
        Operator::Ltn => "<"@,
        Operator::Lte => "<="@,
        Operator::Eql => "=="@,
        Operator::Gte => ">="@,
        Operator::Gtn => ">"@,
        Operator::Neq => "!="@,
    }
}

/// Renders one operator symbol.
pub fn to_hvm_oper(oper: &Operator) -> (r: String)
    ensures
        r@ == oper_text(*oper),
{
    match oper {
        Operator::Add => String::from_str("+"),
        Operator::Sub => String::from_str("-"),
        Operator::Mul => String::from_str("*"),
        Operator::Div => String::from_str("/"),
        Operator::Mod => String::from_str("%"),
        Operator::And => String::from_str("&"),
        Operator::Or => String::from_str("|"),
        Operator::Xor => String::from_str("^"),
        Operator::Shl => String::from_str("<<"),
        Operator::Shr => String::from_str(">>"),
        Operator::Ltn => String::from_str("<"),
        Operator::Lte => String::from_str("<="),
        Operator::Eql => String::from_str("=="),
        Operator::Gte => String::from_str(">="),
        Operator::Gtn => String::from_str(">"),
        Operator::Neq => String::from_str("!="),
    }
}

/// The character sequence a term encodes under the literal-string
/// convention: a chain of `String.cons` constructor applications, each
/// holding one character code and the rest of the chain, closed by a bare
/// `String.nil`.
pub open spec fn str_lit_text(t: Term) -> Option<Seq<char>>
    decreases t,
{
    match t {
        Term::Ctr { name, args } => {
            if name@ == "String.nil"@ && args@.len() == 0 {
                Some(Seq::empty())
            } else if name@ == "String.cons"@ && args@.len() == 2 {
                match args@[0] {
                    Term::Num { numb } => {
                        if valid_char_code(numb) {
                            match str_lit_text(args@[1]) {
                                Some(tail) => Some(seq![(numb as u32) as char] + tail),
                                None => None,
                            }
                        } else {
                            None
                        }
                    },
                    _ => None,
                }
            } else {
                None
            }
        },
        _ => None,
    }
}

/// The internal-consistency conditions a term must meet by the time it is
/// lowered: every constructor or function application resolves to an entry
/// of the book and supplies one argument per declared one, and no
/// pattern-elimination form is left (the normalization phase that runs
/// before lowering removes them).
pub open spec fn term_ok(book: Book, t: Term) -> bool
    decreases t, 0int,
{
    match t {
        Term::Typ => true,
        Term::Var { .. } => true,
        Term::Lam { body, .. } => term_ok(book, *body),
        Term::App { func, argm } => term_ok(book, *func) && term_ok(book, *argm),
        Term::All { .. } => true,
        Term::Let { expr, body, .. } => term_ok(book, *expr) && term_ok(book, *body),
        Term::Ann { expr, .. } => term_ok(book, *expr),
        Term::Sub { expr, .. } => term_ok(book, *expr),
        Term::Ctr { name, args } => call_ok(book, name@, args@),
        Term::Fun { name, args } => call_ok(book, name@, args@),
        Term::Hlp => true,
        Term::U60 => true,
        Term::Num { .. } => true,
        Term::Op2 { val0, val1, .. } => term_ok(book, *val0) && term_ok(book, *val1),
        Term::Hol { .. } => true,
        Term::Mat => false,
    }
}

/// Consistency of one saturated application; see `term_ok`.
pub open spec fn call_ok(book: Book, name: Seq<char>, args: Seq<Term>) -> bool
    decreases args, 1int,
{
    &&& lookup_entry(book.entrs@, name) is Some
    &&& lookup_entry(book.entrs@, name)->0.args@.len() == args.len()
    &&& forall|i: int| 0 <= i < args.len() ==> term_ok(book, #[trigger] args[i])
}

/// The rewrite-rule text of one term. A term recognized as a literal
/// string is rendered as a quoted string, before every case below.
pub open spec fn term_text(book: Book, t: Term) -> Seq<char>
    decreases t, 2int,
{
    if str_lit_text(t) is Some {
        "\""@ + str_lit_text(t)->0 + "\""@
    } else {
        match t {
            Term::Typ => "Type"@,
            Term::Var { name } => name@,
            Term::Lam { name, body } => "@"@ + name@ + " "@ + term_text(book, *body),
            Term::App { func, argm } => "("@ + term_text(book, *func) + " "@ + term_text(
                book,
                *argm,
            ) + ")"@,
            Term::All { .. } => "0"@,
            Term::Let { name, expr, body } => "let "@ + name@ + " = "@ + term_text(book, *expr)
                + "; "@ + term_text(book, *body),
            Term::Ann { expr, .. } => term_text(book, *expr),
            Term::Sub { expr, .. } => term_text(book, *expr),
            Term::Ctr { name, args } => call_text(book, name@, args@),
            Term::Fun { name, args } => call_text(book, name@, args@),
            Term::Hlp => "0"@,
            Term::U60 => "0"@,
            Term::Num { numb } => dec_text(numb as nat),
            Term::Op2 { oper, val0, val1 } => "("@ + oper_text(oper) + " "@ + term_text(
                book,
                *val0,
            ) + " "@ + term_text(book, *val1) + ")"@,
            Term::Hol { .. } => "_"@,
            Term::Mat => Seq::empty(),
        }
    }
}

/// Text of one saturated application: the callee's name applied to its
/// kept arguments, parenthesized.
pub open spec fn call_text(book: Book, name: Seq<char>, args: Seq<Term>) -> Seq<char>
    decreases args, (args.len() + 1) as int,
{
    "("@ + name + kept_args_text(book, lookup_entry(book.entrs@, name)->0.args@, args, 0) + ")"@
}

/// Text of the kept arguments of an application from position `i` on: one
/// space then the argument's text for each position whose declared
/// argument is not erased, in declaration order; erased positions are
/// dropped.
pub open spec fn kept_args_text(book: Book, decl: Seq<Argument>, args: Seq<Term>, i: int) -> Seq<
    char,
>
    decreases args, args.len() - i,
{
    if i < 0 || i >= args.len() {
        Seq::empty()
    } else {
        let rest = kept_args_text(book, decl, args, i + 1);
        if 0 <= i < decl.len() && decl[i].eras {
            rest
        } else {
            " "@ + term_text(book, args[i]) + rest
        }
    }
}

/// Consistency of one rule: its entry is in the book, it has one pattern
/// per declared argument, and its terms are consistent.
pub open spec fn rule_ok(book: Book, rule: Rule) -> bool {
    &&& call_ok(book, rule.name@, rule.pats@)
    &&& term_ok(book, rule.body)
}

/// One rewrite equation: the entry's name applied to the kept patterns,
/// an equals sign, then the body's text.
pub open spec fn rule_text(book: Book, rule: Rule) -> Seq<char> {
    call_text(book, rule.name@, rule.pats@) + " = "@ + term_text(book, rule.body)
}

/// The fixed logging primitive; entries of this name produce no text.
pub open spec fn log_primitive_name() -> Seq<char> {
    "HVM.log"@
}

/// The display name in an entry's header: the name, then the origin tag
/// after a hash mark when one is present.
pub open spec fn display_name_text(entry: Entry) -> Seq<char> {
    match entry.kdln {
        Some(k) => entry.name@ + " #"@ + k@,
        None => entry.name@,
    }
}

/// The declared argument list in an entry's header, from position `i` on,
/// unfiltered: one leading space per argument, a minus sign for an erased
/// one, then `(name: type)`.
pub open spec fn args_decl_text(args: Seq<Argument>, i: int) -> Seq<char>
    decreases args.len() - i,
{
    if i < 0 || i >= args.len() {
        Seq::empty()
    } else {
        " "@ + (if args[i].eras {
            "-"@
        } else {
            Seq::empty()
        }) + "("@ + args[i].name@ + ": "@ + args[i].tipo@ + ")"@ + args_decl_text(args, i + 1)
    }
}

/// The rendered rules of an entry from position `i` on, each on a fresh
/// line.
pub open spec fn rules_text(book: Book, rules: Seq<Rule>, i: int) -> Seq<char>
    decreases rules.len() - i,
{
    if i < 0 || i >= rules.len() {
        Seq::empty()
    } else {
        "\n"@ + rule_text(book, rules[i]) + rules_text(book, rules, i + 1)
    }
}

/// The text block one entry contributes: nothing for the logging primitive
/// or for an entry with no rules; otherwise a header comment holding the
/// display name, the full declared argument list and the return type, then
/// the rules one per line, then a blank-line separator.
pub open spec fn entry_text(book: Book, entry: Entry) -> Seq<char> {
    if entry.name@ == log_primitive_name() {
        Seq::empty()
    } else if entry.rules@.len() == 0 {
        Seq::empty()
    } else {
        "// "@ + display_name_text(entry) + args_decl_text(entry.args@, 0) + " : "@ + entry.tipo@
            + rules_text(book, entry.rules@, 0) + "\n\n"@
    }
}

/// Consistency of one entry: its rules are consistent (nothing is needed
/// of the logging primitive, which is never rendered).
pub open spec fn entry_ok(book: Book, entry: Entry) -> bool {
    entry.name@ == log_primitive_name() || (forall|i: int|
        0 <= i < entry.rules@.len() ==> rule_ok(book, #[trigger] entry.rules@[i]))
}

/// The program text contributed by the names of the canonical order from
/// position `i` on: each name's entry block, concatenated.
pub open spec fn book_names_text(book: Book, i: int) -> Seq<char>
    decreases book.names@.len() - i,
{
    if i < 0 || i >= book.names@.len() {
        Seq::empty()
    } else {
        entry_text(book, lookup_entry(book.entrs@, book.names@[i]@)->0) + book_names_text(
            book,
            i + 1,
        )
    }
}

/// The whole program's text, in canonical name order. Entries that render
/// nothing keep their position but add no visible text.
pub open spec fn book_text(book: Book) -> Seq<char> {
    book_names_text(book, 0)
}

/// Consistency of the whole book: every name of the canonical order is
/// bound, to a consistent entry.
pub open spec fn book_ok(book: Book) -> bool {
    forall|i: int|
        0 <= i < book.names@.len() ==> {
            &&& lookup_entry(book.entrs@, (#[trigger] book.names@[i])@) is Some
            &&& entry_ok(book, lookup_entry(book.entrs@, book.names@[i]@)->0)
        }
}

/// An entry that has no rewrite rules contributes no text, and the logging
/// primitive contributes none whatever its rules hold.
pub proof fn lemma_entry_silent(book: Book, entry: Entry)
    requires
        entry.rules@.len() == 0 || entry.name@ == log_primitive_name(),
    ensures
        entry_text(book, entry) == Seq::<char>::empty(),
{
}

/// A numeral term is rendered as its decimal value, with no decoration.
pub proof fn lemma_numeral_plain(book: Book, numb: u64)
    ensures
        term_text(book, Term::Num { numb }) == dec_text(numb as nat),
{
}

/// A name whose entry renders nothing keeps its position in the canonical
/// order but adds no visible text to the program.
pub proof fn lemma_silent_name_invisible(book: Book, i: int)
    requires
        0 <= i < book.names@.len(),
        entry_text(book, lookup_entry(book.entrs@, book.names@[i]@)->0) == Seq::<char>::empty(),
    ensures
        book_names_text(book, i) == book_names_text(book, i + 1),
{
    assert(Seq::<char>::empty() + book_names_text(book, i + 1) =~= book_names_text(book, i + 1));
}

/// Recognizes the literal-string encoding and renders its characters.
pub fn interpret_as_string(t: &Term) -> (r: Option<String>)
    ensures
        r is Some <==> str_lit_text(*t) is Some,
        r is Some ==> r->0@ == str_lit_text(*t)->0,
    decreases t,
{
    match t {
        Term::Ctr { name, args } => {
            if str_eq(name.as_str(), "String.nil") && args.len() == 0 {
                Some(String::new())
            } else if str_eq(name.as_str(), "String.cons") && args.len() == 2 {
                match &args[0] {
                    Term::Num { numb } => {
                        if *numb < 0xD800 || (0xE000 <= *numb && *numb <= 0x10FFFF) {
                            match char_from_u32(*numb as u32) {
                                Some(c) => {
                                    match interpret_as_string(&args[1]) {
                                        Some(tail) => {
                                            let mut s = String::new();
                                            push_char(&mut s, c);
                                            s.append(tail.as_str());
                                            proof {
                                                vstd::utf8::char_u32_cast(c, (*numb) as u32);
                                                assert(s@ =~= str_lit_text(*t)->0);
                                            }
                                            Some(s)
                                        },
                                        None => None,
                                    }
                                },
                                None => {
                                    proof {
                                        assert(false);
                                    }
                                    None
                                },
                            }
                        } else {
                            None
                        }
                    },
                    _ => None,
                }
            } else {
                None
            }
        },
        _ => None,
    }
}

/// Lowers one term to its rewrite-rule text.
pub fn to_hvm_term(book: &Book, term: &Term) -> (r: String)
    requires
        term_ok(*book, *term),
    ensures
        r@ == term_text(*book, *term),
    decreases term, 2int,
{
    let lit = interpret_as_string(term);
    match lit {
        Some(inner) => {
            let mut out = String::from_str("\"");
            out.append(inner.as_str());
            out.append("\"");
            out
        },
        None => match term {
            Term::Typ => String::from_str("Type"),
            Term::Var { name } => name.clone(),
            Term::Lam { name, body } => {
                let mut out = String::from_str("@");
                out.append(name.as_str());
                out.append(" ");
                let b = to_hvm_term(book, body);
                out.append(b.as_str());
                out
            },
            Term::App { func, argm } => {
                let mut out = String::from_str("(");
                let f = to_hvm_term(book, func);
                out.append(f.as_str());
                out.append(" ");
                let a = to_hvm_term(book, argm);
                out.append(a.as_str());
                out.append(")");
                out
            },
            Term::All { .. } => String::from_str("0"),
            Term::Let { name, expr, body } => {
                let mut out = String::from_str("let ");
                out.append(name.as_str());
                out.append(" = ");
                let e = to_hvm_term(book, expr);
                out.append(e.as_str());
                out.append("; ");
                let b = to_hvm_term(book, body);
                out.append(b.as_str());
                out
            },
            Term::Ann { expr, .. } => to_hvm_term(book, expr),
            Term::Sub { expr, .. } => to_hvm_term(book, expr),
            Term::Ctr { name, args } => call_to_text(book, name, args),
            Term::Fun { name, args } => call_to_text(book, name, args),
            Term::Hlp => String::from_str("0"),
            Term::U60 => String::from_str("0"),
            Term::Num { numb } => u64_to_dec(*numb),
            Term::Op2 { oper, val0, val1 } => {
                let mut out = String::from_str("(");
                let o = to_hvm_oper(oper);
                out.append(o.as_str());
                out.append(" ");
                let v0 = to_hvm_term(book, val0);
                out.append(v0.as_str());
                out.append(" ");
                let v1 = to_hvm_term(book, val1);
                out.append(v1.as_str());
                out.append(")");
                out
            },
            Term::Hol { .. } => String::from_str("_"),
            Term::Mat => {
                proof {
                    assert(false);
                }
                String::new()
            },
        },
    }
}

/// Renders one saturated application: the callee's name, then each kept
/// argument preceded by one space.
fn call_to_text(book: &Book, name: &String, args: &Vec<Term>) -> (r: String)
    requires
        call_ok(*book, name@, args@),
    ensures
        r@ == call_text(*book, name@, args@),
    decreases args, (args@.len() + 3) as int,
{
    let entr = book.get(name.as_str()).unwrap();
    let mut out = String::from_str("(");
    out.append(name.as_str());
    let mut i: usize = 0;
    while i < args.len()
        invariant
            i <= args@.len(),
            out@ + kept_args_text(*book, entr.args@, args@, i as int) == "("@ + name@
                + kept_args_text(*book, entr.args@, args@, 0),
        decreases args@.len() - i,
    {
        let ghost prev = out@;
        if !entr.args[i].eras {
            out.append(" ");
            let t = to_hvm_term(book, &args[i]);
            out.append(t.as_str());
        }
        proof {
            assert(out@ + kept_args_text(*book, entr.args@, args@, i + 1 as int) =~= prev
                + kept_args_text(*book, entr.args@, args@, i as int));
        }
        i += 1;
    }
    out.append(")");
    proof {
        assert(out@ =~= call_text(*book, name@, args@));
    }
    out
}

/// Renders one rewrite equation.
pub fn to_hvm_rule(book: &Book, rule: &Rule) -> (r: String)
    requires
        rule_ok(*book, *rule),
    ensures
        r@ == rule_text(*book, *rule),
{
    let mut out = call_to_text(book, &rule.name, &rule.pats);
    out.append(" = ");
    let b = to_hvm_term(book, &rule.body);
    out.append(b.as_str());
    out
}

/// Renders the text block of one entry.
pub fn to_hvm_entry(book: &Book, entry: &Entry) -> (r: String)
    requires
        entry_ok(*book, *entry),
    ensures
        r@ == entry_text(*book, *entry),
{
    if str_eq(entry.name.as_str(), "HVM.log") {
        return String::new();
    }
    if entry.rules.len() == 0 {
        return String::new();
    }
    let mut out = String::from_str("// ");
    out.append(entry.name.as_str());
    match &entry.kdln {
        Some(k) => {
            out.append(" #");
            out.append(k.as_str());
        },
        None => {},
    }
    proof {
        assert(out@ == "// "@ + display_name_text(*entry));
    }
    let ghost header = out@;
    let mut i: usize = 0;
    while i < entry.args.len()
        invariant
            i <= entry.args@.len(),
            out@ + args_decl_text(entry.args@, i as int) == header + args_decl_text(
                entry.args@,
                0,
            ),
        decreases entry.args@.len() - i,
    {
        let ghost prev = out@;
        out.append(" ");
        if entry.args[i].eras {
            out.append("-");
        }
        out.append("(");
        out.append(entry.args[i].name.as_str());
        out.append(": ");
        out.append(entry.args[i].tipo.as_str());
        out.append(")");
        proof {
            assert(out@ + args_decl_text(entry.args@, i + 1 as int) =~= prev + args_decl_text(
                entry.args@,
                i as int,
            ));
        }
        i += 1;
    }
    out.append(" : ");
    out.append(entry.tipo.as_str());
    let ghost head_args = out@;
    let mut j: usize = 0;
    while j < entry.rules.len()
        invariant
            j <= entry.rules@.len(),
            out@ + rules_text(*book, entry.rules@, j as int) == head_args + rules_text(
                *book,
                entry.rules@,
                0,
            ),
        decreases entry.rules@.len() - j,
    {
        let ghost prev = out@;
        out.append("\n");
        let rl = to_hvm_rule(book, &entry.rules[j]);
        out.append(rl.as_str());
        proof {
            assert(out@ + rules_text(*book, entry.rules@, j + 1 as int) =~= prev + rules_text(
                *book,
                entry.rules@,
                j as int,
            ));
        }
        j += 1;
    }
    out.append("\n\n");
    proof {
        assert(out@ =~= entry_text(*book, *entry));
    }
    out
}

/// Renders the whole program, in canonical name order.
pub fn to_hvm_book(book: &Book) -> (r: String)
    requires
        book_ok(*book),
    ensures
        r@ == book_text(*book),
{
    let mut out = String::new();
    let mut i: usize = 0;
    while i < book.names.len()
        invariant
            i <= book.names@.len(),
            out@ + book_names_text(*book, i as int) == book_text(*book),
        decreases book.names@.len() - i,
    {
        let ghost prev = out@;
        let entr = book.get(book.names[i].as_str()).unwrap();
        let block = to_hvm_entry(book, entr);
        out.append(block.as_str());
        proof {
            assert(out@ + book_names_text(*book, i + 1 as int) =~= prev + book_names_text(
                *book,
                i as int,
            ));
        }
        i += 1;
    }
    out
}

} // verus!
