use path_printer::ast::{
    AngleBracketedGenericArguments, Binding, Constraint, Expr, GenericArgument, Lifetime,
    ParenthesizedGenericArguments, Path, PathArguments, PathSegment, QSelf, ReturnType, Type,
    TypeParamBound,
};
use path_printer::printer::Printer;
use quote::ToTokens;

fn ty(s: &str) -> Type {
    Type { text: s.to_string() }
}

fn seg(name: &str) -> PathSegment {
    PathSegment { ident: name.to_string(), arguments: PathArguments::Empty }
}

fn seg_args(name: &str, colon2: bool, args: Vec<GenericArgument>) -> PathSegment {
    PathSegment {
        ident: name.to_string(),
        arguments: PathArguments::AngleBracketed(AngleBracketedGenericArguments {
            colon2_token: colon2,
            args,
        }),
    }
}

fn path(rooted: bool, segments: Vec<PathSegment>) -> Path {
    Path { leading_colon: rooted, segments }
}

fn lifetime(s: &str) -> GenericArgument {
    GenericArgument::Lifetime(Lifetime { text: s.to_string() })
}

fn type_arg(s: &str) -> GenericArgument {
    GenericArgument::Type(ty(s))
}

fn binding(name: &str, value: &str) -> GenericArgument {
    GenericArgument::Binding(Binding { ident: name.to_string(), ty: ty(value) })
}

fn constraint(name: &str, bounds: &[&str]) -> GenericArgument {
    GenericArgument::Constraint(Constraint {
        ident: name.to_string(),
        bounds: bounds.iter().map(|b| TypeParamBound { text: b.to_string() }).collect(),
    })
}

fn print_path(p: &Path) -> String {
    let mut printer = Printer::new();
    printer.path(p);
    printer.tokens.join(" ")
}

fn print_qpath(q: &Option<QSelf>, p: &Path) -> String {
    let mut printer = Printer::new();
    printer.qpath(q, p);
    printer.tokens.join(" ")
}

fn print_segment(s: &PathSegment) -> String {
    let mut printer = Printer::new();
    printer.path_segment(s);
    printer.tokens.join(" ")
}

fn qself(t: &str, position: usize) -> Option<QSelf> {
    Some(QSelf { ty: ty(t), position })
}

#[test]
fn ordering_groups_lifetimes_types_then_bindings() {
    let s = seg_args(
        "A",
        false,
        vec![
            GenericArgument::Const(Expr::Lit("1".to_string())),
            lifetime("'a"),
            type_arg("T"),
            binding("Item", "U"),
        ],
    );
    assert_eq!(print_segment(&s), "A < 'a , 1 , T , Item = U , >");
}

#[test]
fn ordering_keeps_relative_order_within_groups() {
    let s = seg_args(
        "F",
        false,
        vec![
            constraint("Out", &["Clone"]),
            type_arg("X"),
            lifetime("'b"),
            binding("Item", "U"),
            GenericArgument::Const(Expr::Other("N + 1".to_string())),
            lifetime("'a"),
            type_arg("Y"),
        ],
    );
    assert_eq!(
        print_segment(&s),
        "F < 'b , 'a , X , { N + 1 } , Y , Out : Clone + , Item = U , >"
    );
}

#[test]
fn empty_angle_brackets_and_turbofish() {
    assert_eq!(print_segment(&seg_args("A", false, vec![])), "A < >");
    assert_eq!(print_segment(&seg_args("f", true, vec![type_arg("T")])), "f :: < T , >");
}

#[test]
fn constraint_bounds_each_followed_by_plus() {
    let s = seg_args("I", false, vec![constraint("Item", &["Clone", "Send", "'static"])]);
    assert_eq!(print_segment(&s), "I < Item : Clone + Send + 'static + , >");
}

#[test]
fn separators_unrooted_and_rooted() {
    let segs = vec![seg("A"), seg("B"), seg("C")];
    assert_eq!(print_path(&path(false, segs.clone())), "A :: B :: C");
    assert_eq!(print_path(&path(true, segs)), ":: A :: B :: C");
}

#[test]
fn single_and_empty_paths() {
    assert_eq!(print_path(&path(false, vec![seg("A")])), "A");
    assert_eq!(print_path(&path(true, vec![seg("A")])), ":: A");
    assert_eq!(print_path(&path(false, vec![])), "");
}

#[test]
fn qself_position_zero() {
    let p = path(false, vec![seg("Item")]);
    assert_eq!(print_qpath(&qself("T", 0), &p), "< T > :: Item");
}

#[test]
fn qself_position_equals_segment_count() {
    let p = path(false, vec![seg("Interface")]);
    assert_eq!(print_qpath(&qself("T", 1), &p), "< T as Interface >");
}

#[test]
fn qself_partial_consumption() {
    let p = path(false, vec![seg("Interface"), seg("Member")]);
    assert_eq!(print_qpath(&qself("T", 1), &p), "< T as Interface > :: Member");
}

#[test]
fn qself_position_is_clamped() {
    let p = path(false, vec![seg("a"), seg("Trait")]);
    assert_eq!(print_qpath(&qself("T", 7), &p), "< T as a :: Trait >");
}

#[test]
fn qself_on_rooted_path() {
    let p = path(true, vec![seg("a"), seg("Trait"), seg("Item")]);
    assert_eq!(print_qpath(&qself("T", 2), &p), "< T as :: a :: Trait > :: Item");
    assert_eq!(print_qpath(&qself("T", 0), &p), "< T > :: a :: Trait :: Item");
}

#[test]
fn qpath_without_qself_is_a_path() {
    let p = path(false, vec![seg("A"), seg("B")]);
    assert_eq!(print_qpath(&None, &p), "A :: B");
}

#[test]
fn const_argument_bracing() {
    let lit = seg_args("A", false, vec![GenericArgument::Const(Expr::Lit("5".to_string()))]);
    assert_eq!(print_segment(&lit), "A < 5 , >");
    let block =
        seg_args("A", false, vec![GenericArgument::Const(Expr::Block("{ N }".to_string()))]);
    assert_eq!(print_segment(&block), "A < { N } , >");
    let other =
        seg_args("A", false, vec![GenericArgument::Const(Expr::Other("N + 1".to_string()))]);
    let mut printer = Printer::new();
    printer.path_segment(&other);
    assert_eq!(printer.tokens, vec!["A", "<", "{", "N + 1", "}", ",", ">"]);
}

#[test]
fn parenthesized_arguments() {
    let with_output = PathSegment {
        ident: "Fn".to_string(),
        arguments: PathArguments::Parenthesized(ParenthesizedGenericArguments {
            inputs: vec![ty("A"), ty("B")],
            output: ReturnType::Type(ty("C")),
        }),
    };
    assert_eq!(print_segment(&with_output), "Fn ( A , B , ) -> C");
    let without = PathSegment {
        ident: "FnMut".to_string(),
        arguments: PathArguments::Parenthesized(ParenthesizedGenericArguments {
            inputs: vec![],
            output: ReturnType::Default,
        }),
    };
    assert_eq!(print_segment(&without), "FnMut ( )");
}

#[test]
fn printer_appends_to_existing_tokens() {
    let mut printer = Printer::new();
    printer.word("let");
    printer.path(&path(false, vec![seg("x")]));
    assert_eq!(printer.tokens, vec!["let", "x"]);
}

/// Describes a parsed path: each segment's name and the kinds of its arguments.
fn shape(p: &syn::Path) -> Vec<String> {
    let mut out = Vec::new();
    if p.leading_colon.is_some() {
        out.push("::".to_string());
    }
    for s in &p.segments {
        let mut d = s.ident.to_string();
        if let syn::PathArguments::AngleBracketed(a) = &s.arguments {
            for arg in &a.args {
                d.push(' ');
                d.push_str(&match arg {
                    syn::GenericArgument::Lifetime(l) => l.to_token_stream().to_string(),
                    syn::GenericArgument::Type(t) => format!("type {}", t.to_token_stream()),
                    syn::GenericArgument::Binding(b) => format!("{} = {}", b.ident, b.ty.to_token_stream()),
                    syn::GenericArgument::Constraint(c) => format!("{}: bound", c.ident),
                    syn::GenericArgument::Const(e) => format!("const {}", e.to_token_stream()),
                });
            }
        }
        out.push(d);
    }
    out
}

fn to_library(p: &syn::Path) -> Path {
    let segments = p
        .segments
        .iter()
        .map(|s| PathSegment {
            ident: s.ident.to_string(),
            arguments: match &s.arguments {
                syn::PathArguments::AngleBracketed(a) => {
                    PathArguments::AngleBracketed(AngleBracketedGenericArguments {
                        colon2_token: a.colon2_token.is_some(),
                        args: a
                            .args
                            .iter()
                            .map(|arg| match arg {
                                syn::GenericArgument::Lifetime(l) => lifetime(&l.to_token_stream().to_string()),
                                syn::GenericArgument::Type(t) => type_arg(&t.to_token_stream().to_string()),
                                syn::GenericArgument::Binding(b) => {
                                    binding(&b.ident.to_string(), &b.ty.to_token_stream().to_string())
                                }
                                other => panic!("unexpected argument {}", other.to_token_stream()),
                            })
                            .collect(),
                    })
                }
                _ => PathArguments::Empty,
            },
        })
        .collect();
    Path { leading_colon: p.leading_colon.is_some(), segments }
}

#[test]
fn printed_path_reparses_to_same_structure() {
    let original = path(
        true,
        vec![
            seg("std"),
            seg_args("Map", false, vec![binding("Item", "U"), type_arg("K"), lifetime("'a")]),
            seg("Entry"),
        ],
    );
    let printed = print_path(&original);
    let parsed: syn::Path = syn::parse_str(&printed).unwrap();
    assert_eq!(shape(&parsed), vec!["::", "std", "Map 'a type K Item = U", "Entry"]);
}

#[test]
fn print_parse_print_is_stable() {
    let original = path(
        false,
        vec![seg_args("Iter", true, vec![type_arg("T"), lifetime("'a"), binding("Item", "X")])],
    );
    let first = print_path(&original);
    let reparsed: syn::Path = syn::parse_str(&first).unwrap();
    let second = print_path(&to_library(&reparsed));
    assert_eq!(first, second);
}

#[test]
fn printed_qpath_reparses_with_same_qself() {
    let p = path(false, vec![seg("Interface"), seg("Member")]);
    let printed = print_qpath(&qself("T", 1), &p);
    let parsed: syn::TypePath = syn::parse_str(&printed).unwrap();
    let q = parsed.qself.expect("qualified self");
    assert_eq!(q.position, 1);
    assert_eq!(q.ty.to_token_stream().to_string(), "T");
    assert_eq!(shape(&parsed.path), vec!["Interface", "Member"]);
}
