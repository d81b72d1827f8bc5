use vstd::prelude::*;

use crate::lexer::span::Span;
use crate::lexer::token::Token;
use crate::parser::parser::Parser;
use crate::parser::shape::{lemma_stmts_wf, stmt_wf, stmts_wf};
use crate::parser::statement::{starts_statement, statement_kind_ok, Statement};
use crate::parser::types::ParseError;
use crate::text::string_from;

verus! {

/// A parsed source file: its package, imports, declarations and top-level code.
pub struct Program {
    pub package: String,
    pub imports: Vec<ImportItem>,
    pub declarations: Vec<Statement>,
    pub main: Vec<Statement>,
}

/// `import module` or `import module.{symbols}`.
#[derive(Debug, Clone, PartialEq)]
pub struct ImportItem {
    pub module: String,
    pub symbols: Vec<String>,
    pub span: Span,
}

impl Parser {
    /// Parses a whole source file. The package is `default_package` unless a
    /// `package` clause names another. Declarations (functions, structs,
    /// constants, extern functions, extend blocks) are kept apart from the
    /// top-level code, each in source order.
    pub fn parse_program(&mut self, default_package: &str) -> (r: Result<Program, ParseError>)
        requires
            old(self).wf(),
        ensures
            final(self).frame(old(self)),
            r matches Ok(p) ==> {
                &&& forall|i: int| 0 <= i < p.declarations@.len() ==> (#[trigger] p.declarations@[i]).spec_is_declaration()
                &&& forall|i: int| 0 <= i < p.main@.len() ==> !(#[trigger] p.main@[i]).spec_is_declaration()
                &&& !(old(self).current_token.token is Package) ==> p.package@ == default_package@
                &&& stmts_wf(p.declarations@)
                &&& stmts_wf(p.main@)
            },
            old(self).current_token.token is Eof ==> (r matches Ok(p) && p.package@ == default_package@
                && p.imports@.len() == 0 && p.declarations@.len() == 0 && p.main@.len() == 0),
            starts_statement(old(self).current_token.token) && !(old(self).current_token.token is Package)
                && !(old(self).current_token.token is Import) ==> (r matches Ok(p) ==> p.imports@.len() == 0 && ((
            p.declarations@.len() > 0 && statement_kind_ok(old(self).current_token, old(self).peek_token, p.declarations@[0]))
                || (p.main@.len() > 0 && statement_kind_ok(old(self).current_token, old(self).peek_token, p.main@[0])))),
    {
        let mut package = string_from(default_package);
        if matches!(self.current_token.token, Token::Package) {
            package = self.parse_package()?;
            self.next_token();
        }
        self.skip_terminators();
        let mut imports: Vec<ImportItem> = Vec::new();
        let ghost plain_start = !(old(self).current_token.token is Package) && !(old(self).current_token.token is Import)
            && !(old(self).current_token.token is Newline) && !(old(self).current_token.token is Semicolon);
        while matches!(self.current_token.token, Token::Import)
            invariant
                self.frame(old(self)),
                plain_start == (!(old(self).current_token.token is Package) && !(old(self).current_token.token is Import)
                    && !(old(self).current_token.token is Newline) && !(old(self).current_token.token is Semicolon)),
                plain_start ==> *self == *old(self) && imports@.len() == 0,
            decreases self.measure(),
        {
            let mut res = self.parse_imports()?;
            imports.append(&mut res);
            self.skip_terminators();
        }
        self.skip_terminators();
        let ghost before_top = *self;
        let all_statements = self.parse_top_level()?;
        let ghost all = all_statements@;
        proof {
            lemma_stmts_wf(all);
        }
        let mut declarations: Vec<Statement> = Vec::new();
        let mut main: Vec<Statement> = Vec::new();
        for stmt in it: all_statements
            invariant
                it.seq() == all,
                forall|i: int| 0 <= i < all.len() ==> stmt_wf(#[trigger] all[i]),
                forall|i: int| 0 <= i < declarations@.len() ==> (#[trigger] declarations@[i]).spec_is_declaration(),
                forall|i: int| 0 <= i < main@.len() ==> !(#[trigger] main@[i]).spec_is_declaration(),
                forall|i: int| 0 <= i < declarations@.len() ==> stmt_wf(#[trigger] declarations@[i]),
                forall|i: int| 0 <= i < main@.len() ==> stmt_wf(#[trigger] main@[i]),
                it.index() == 0 ==> declarations@.len() == 0 && main@.len() == 0,
                it.index() > 0 ==> (declarations@.len() > 0 && declarations@[0] == all[0]) || (main@.len() > 0
                    && main@[0] == all[0]),
                declarations@.len() + main@.len() == it.index(),
        {
            assert(stmt == all[it.index() as int]);
            if stmt.is_declaration() {
                declarations.push(stmt);
            } else {
                main.push(stmt);
            }
        }
        proof {
            lemma_stmts_wf(declarations@);
            lemma_stmts_wf(main@);
        }
        Ok(Program { package, imports, declarations, main })
    }
}

} // verus!
