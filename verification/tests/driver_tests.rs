use violette::driver::{add_imported_decls, filter_declarations, import_target};
use violette::lexer::lexer::Lexer;
use violette::lexer::span::Span;
use violette::parser::parser::Parser;
use violette::parser::program::ImportItem;
use violette::parser::statement::Statement;

fn decls(src: &str) -> Vec<Statement> {
    let mut parser = Parser::new(Lexer::new(src));
    parser.parse_program("m").unwrap().declarations
}

fn name_of(s: &Statement) -> String {
    match s {
        Statement::Func { name, .. }
        | Statement::ExternFunc { name, .. }
        | Statement::Const { name, .. }
        | Statement::Struct { name, .. } => name.clone(),
        _ => String::new(),
    }
}

#[test]
fn selective_import_keeps_named_and_externs() {
    let all = decls("fun abs(x: int) [int] {\n return x\n}\nfun sqrt(x: int) [int] {\n return x\n}\nconst PI = 3\nstruct P {}");
    let kept = filter_declarations(all, &["sqrt".to_string(), "P".to_string()]);
    let names: Vec<String> = kept.iter().map(name_of).collect();
    assert_eq!(names, vec!["sqrt".to_string(), "P".to_string()]);
}

#[test]
fn import_without_symbols_keeps_everything() {
    let all = decls("fun a() {}\nfun b() {}");
    assert_eq!(filter_declarations(all, &[]).len(), 2);
}

#[test]
fn dotted_import_selects_the_last_segment() {
    let item = ImportItem { module: "std.math.hypot".to_string(), symbols: vec![], span: Span::origin() };
    let (module, symbols) = import_target(&item);
    assert_eq!(module, "std.math");
    assert_eq!(symbols, vec!["hypot".to_string()]);
    let item = ImportItem { module: "math".to_string(), symbols: vec!["abs".to_string()], span: Span::origin() };
    let (module, symbols) = import_target(&item);
    assert_eq!(module, "math");
    assert_eq!(symbols, vec!["abs".to_string()]);
}

#[test]
fn merging_skips_names_seen_before() {
    let mut all = Vec::new();
    let mut seen = Vec::new();
    add_imported_decls(&mut all, &mut seen, decls("fun a() {}\nfun b() {}"));
    add_imported_decls(&mut all, &mut seen, decls("fun b() {}\nfun c() {}"));
    let names: Vec<String> = all.iter().map(name_of).collect();
    assert_eq!(names, vec!["a".to_string(), "b".to_string(), "c".to_string()]);
    assert_eq!(seen.len(), 3);
}
