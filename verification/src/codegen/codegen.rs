use vstd::prelude::*;

use crate::codegen::error::CodegenError;
use crate::typechecker::typing::expected_view;
use crate::codegen::expr_text::{
    after_stmt, binding_text, c_block, c_block_lines, c_call, c_call_name, c_stmt, indented, lemma_c_block_lines_err,
    lemma_plain_block, plain_block, plain_stmt, release_lines, string_binding_of, string_bindings, typing_after, c_expr, c_exprs, c_fields, c_method_call, call_text, lemma_c_exprs_err,
    lemma_c_fields_err,
    lemma_plain_exprs, lemma_plain_fields, method_target, struct_method_c_name, plain_expr, plain_exprs, print_suffix, text_of, CgErr,
    elifs_after, elifs_text, if_text, lemma_elifs_fail, lemma_elifs_step, lemma_plain_elifs, plain_elifs, plain_if,
    with_scope, loop_text, plain_loop, plain_range, range_bounds, range_var_typing,
};
use crate::typechecker::typing::{expr_no_extern, exprs_no_extern, lemma_exprs_no_extern, lemma_fields_no_extern, ty_of};
use crate::lexer::rules::{law_lexed_token_is_its_spelling, lex};
use crate::lexer::token::{lemma_spelling_distinct, spelling, Token, TokenView};
use crate::parser::expression::{Expression, RangeKind};
use crate::parser::program::Program;
use crate::parser::shape::{
    expr_cg, expr_size, expr_wf, exprs_cg, exprs_size, exprs_wf, lemma_exprs_cg, lemma_exprs_size, lemma_exprs_wf,
    lemma_params_wf, lemma_stmts_cg, lemma_stmts_size, lemma_stmts_wf, params_wf, stmt_cg, stmt_size, stmt_wf,
    stmts_cg, stmts_size, stmts_wf, type_wf,
};
use crate::parser::statement::{FuncParam, Statement};
use crate::parser::types::Type;
use crate::text::{
    digits_text, escape_default_text, escape_text, has_prefix, int_text, isize_text, join_strings, joined,
    lines_of, lines_spec, replace_all, replace_char, string_from, string_push, string_push_str, texts, usize_text,
    str_byte_len, utf8_len, concat, lemma_texts_push,
};
use crate::typechecker::checker::{extends, resolve_ret, resolve_ty, Checker};
use crate::typechecker::env::{lookup_in, EntityView};
use crate::typechecker::checker::bound;
use crate::typechecker::typing::Typing;
use crate::typechecker::error::BindingKind;
use crate::typechecker::table::{find_entry, insert_entry, table_map, unique_names, Entry};
use crate::typechecker::types::{debug_text, lemma_views, Ty, TyView};

verus! {

/// Whether a type holds no function type (those are lowered to typedefs).
pub open spec fn fn_free(t: TyView) -> bool
    decreases t,
{
    match t {
        TyView::Fn { .. } => false,
        TyView::Ref { inner, .. } => fn_free(*inner),
        _ => true,
    }
}

/// The function pointer types named so far: the name given to each
/// signature, how many were named, and their `typedef`s in order.
pub struct FnTypeTable {
    pub names: Map<Seq<char>, Seq<char>>,
    pub count: nat,
    pub defs: Seq<Seq<char>>,
}

/// The C type of `t`, and the table after it: a function type's signature
/// is the C result type, then the parameter types in brackets (`void` for
/// none); a signature met before keeps its name, a new one is named
/// `vio_fn_type_N` after the number of signatures named before it, and its
/// `typedef` of a function pointer is added. The result type is named
/// before the parameters, and those in order.
pub open spec fn c_type_of(st: FnTypeTable, t: TyView) -> (Seq<char>, FnTypeTable)
    decreases t,
{
    match t {
        TyView::Fn { params, ret } => {
            let (rc, s1) = c_type_of(st, *ret);
            let (pcs, s2) = c_types_of(s1, params);
            let ps = if params.len() == 0 {
                "void"@
            } else {
                joined(pcs, ", "@)
            };
            let key = (rc.push('(') + ps).push(')');
            if s2.names.contains_key(key) {
                (s2.names[key], s2)
            } else {
                let name = "vio_fn_type_"@ + digits_text(s2.count);
                (
                    name,
                    FnTypeTable {
                        names: s2.names.insert(key, name),
                        count: s2.count + 1,
                        defs: s2.defs.push("typedef "@ + rc + " (*"@ + name + ")("@ + ps + ");"@),
                    },
                )
            }
        },
        TyView::Ref { inner, .. } => {
            let (x, s1) = c_type_of(st, *inner);
            (x + "*"@, s1)
        },
        _ => (c_type_text(t), st),
    }
}

/// The C types of `s` in order, each named in the table the ones before it
/// left.
pub open spec fn c_types_of(st: FnTypeTable, s: Seq<TyView>) -> (Seq<Seq<char>>, FnTypeTable)
    decreases s,
{
    if s.len() == 0 {
        (Seq::empty(), st)
    } else {
        let (prev, s1) = c_types_of(st, s.drop_last());
        let (x, s2) = c_type_of(s1, s.last());
        (prev.push(x), s2)
    }
}

/// The C type of a type without function types.
pub open spec fn c_type_text(t: TyView) -> Seq<char>
    decreases t,
{
    match t {
        TyView::Int => "int64_t"@,
        TyView::Float => "double"@,
        TyView::Bool => "bool"@,
        TyView::Char => "uint32_t"@,
        TyView::String => "VioString"@,
        TyView::Struct(s) => s,
        TyView::Unit => "void"@,
        TyView::Ref { inner, .. } => c_type_text(*inner) + "*"@,
        TyView::Infer => "int64_t"@,
        _ => "unknown"@,
    }
}

/// The C operator for a Violette operator token.
pub open spec fn operator_text(op: Token) -> Option<Seq<char>> {
    match op {
        Token::Assign => Some("="@),
        Token::Equals => Some("=="@),
        Token::NotEquals => Some("!="@),
        Token::Less => Some("<"@),
        Token::Greater => Some(">"@),
        Token::LessOrEquals => Some("<="@),
        Token::GreaterOrEquals => Some(">="@),
        Token::Add => Some("+"@),
        Token::Subtract => Some("-"@),
        Token::Multiply => Some("*"@),
        Token::Divide => Some("/"@),
        Token::Modulus => Some("%"@),
        Token::Increment => Some("++"@),
        Token::Decrement => Some("--"@),
        Token::AddAndAssign => Some("+="@),
        Token::SubAndAssign => Some("-="@),
        Token::MulAndAssign => Some("*="@),
        Token::DivAndAssign => Some("/="@),
        Token::ModAndAssign => Some("%="@),
        Token::LogicAnd => Some("&&"@),
        Token::LogicOr => Some("||"@),
        Token::LogicNot => Some("!"@),
        Token::BitAnd => Some("&"@),
        Token::BitOr => Some("|"@),
        Token::BitXOR => Some("^"@),
        Token::BitNot => Some("~"@),
        _ => None,
    }
}

/// The C operator written for an operator token is the token's own
/// Violette spelling, except bitwise or, written `#` in Violette and `|` in C.
pub proof fn law_c_operator_is_its_spelling(t: Token)
    ensures
        operator_text(t) matches Some(c) ==> (if t is BitOr {
            c == seq!['|']
        } else {
            spelling(t) == Some(c)
        }),
{
    reveal_strlit("=");
    reveal_strlit("==");
    reveal_strlit("!=");
    reveal_strlit("<");
    reveal_strlit(">");
    reveal_strlit("<=");
    reveal_strlit(">=");
    reveal_strlit("+");
    reveal_strlit("-");
    reveal_strlit("*");
    reveal_strlit("/");
    reveal_strlit("%");
    reveal_strlit("++");
    reveal_strlit("--");
    reveal_strlit("+=");
    reveal_strlit("-=");
    reveal_strlit("*=");
    reveal_strlit("/=");
    reveal_strlit("%=");
    reveal_strlit("&&");
    reveal_strlit("||");
    reveal_strlit("!");
    reveal_strlit("&");
    reveal_strlit("|");
    reveal_strlit("^");
    reveal_strlit("~");
    assert(seq!['|'] =~= "|"@);
    match t {
        Token::Assign => assert("="@ =~= seq!['=']),
        Token::Equals => assert("=="@ =~= seq!['=', '=']),
        Token::NotEquals => assert("!="@ =~= seq!['!', '=']),
        Token::Less => assert("<"@ =~= seq!['<']),
        Token::Greater => assert(">"@ =~= seq!['>']),
        Token::LessOrEquals => assert("<="@ =~= seq!['<', '=']),
        Token::GreaterOrEquals => assert(">="@ =~= seq!['>', '=']),
        Token::Add => assert("+"@ =~= seq!['+']),
        Token::Subtract => assert("-"@ =~= seq!['-']),
        Token::Multiply => assert("*"@ =~= seq!['*']),
        Token::Divide => assert("/"@ =~= seq!['/']),
        Token::Modulus => assert("%"@ =~= seq!['%']),
        Token::Increment => assert("++"@ =~= seq!['+', '+']),
        Token::Decrement => assert("--"@ =~= seq!['-', '-']),
        Token::AddAndAssign => assert("+="@ =~= seq!['+', '=']),
        Token::SubAndAssign => assert("-="@ =~= seq!['-', '=']),
        Token::MulAndAssign => assert("*="@ =~= seq!['*', '=']),
        Token::DivAndAssign => assert("/="@ =~= seq!['/', '=']),
        Token::ModAndAssign => assert("%="@ =~= seq!['%', '=']),
        Token::LogicAnd => assert("&&"@ =~= seq!['&', '&']),
        Token::LogicOr => assert("||"@ =~= seq!['|', '|']),
        Token::LogicNot => assert("!"@ =~= seq!['!']),
        Token::BitAnd => assert("&"@ =~= seq!['&']),
        Token::BitXOR => assert("^"@ =~= seq!['^']),
        Token::BitNot => assert("~"@ =~= seq!['~']),
        _ => {},
    }
}

/// Two different tokens are never written as the same C operator: each
/// comparison, arithmetic and logic operator keeps its own meaning.
pub proof fn law_c_operators_distinct(t1: Token, t2: Token)
    requires
        operator_text(t1) is Some,
        operator_text(t1) == operator_text(t2),
    ensures
        t1 == t2,
{
    law_c_operator_is_its_spelling(t1);
    law_c_operator_is_its_spelling(t2);
    let c = operator_text(t1).unwrap();
    if !(t1 is BitOr) && !(t2 is BitOr) {
        assert(spelling(t1) == spelling(t2));
        lemma_spelling_distinct(t1, t2);
    } else if t1 is BitOr && !(t2 is BitOr) {
        assert(spelling(t2) == Some(seq!['|']));
        assert(t2 is Pipe) by {
            lemma_spelling_distinct(t2, Token::Pipe);
        }
    } else if !(t1 is BitOr) && t2 is BitOr {
        assert(spelling(t1) == Some(seq!['|']));
        assert(t1 is Pipe) by {
            lemma_spelling_distinct(t1, Token::Pipe);
        }
    }
}

/// An operator lexed from source is written in C as the very chars it was
/// read from (bitwise or aside).
pub proof fn law_c_operator_is_source_text(s: Seq<char>, p: int)
    requires
        0 <= p <= s.len(),
    ensures
        lex(s, p).token matches TokenView::Plain(t) ==> (operator_text(t) matches Some(c) ==> (!(t is BitOr)
            ==> c == s.subrange(lex(s, p).start, lex(s, p).end))),
{
    law_lexed_token_is_its_spelling(s, p);
    if lex(s, p).token is Plain {
        law_c_operator_is_its_spelling(lex(s, p).token->Plain_0);
    }
}

/// `s` without its leading zeros.
pub open spec fn strip_leading_zeros(s: Seq<char>) -> Seq<char>
    decreases s.len(),
{
    if s.len() > 0 && s[0] == '0' {
        strip_leading_zeros(s.skip(1))
    } else {
        s
    }
}

/// `s` without its trailing zeros.
pub open spec fn strip_trailing_zeros(s: Seq<char>) -> Seq<char>
    decreases s.len(),
{
    if s.len() > 0 && s.last() == '0' {
        strip_trailing_zeros(s.drop_last())
    } else {
        s
    }
}

/// `s`, or `0` when it is empty.
pub open spec fn or_zero(s: Seq<char>) -> Seq<char> {
    if s.len() == 0 {
        seq!['0']
    } else {
        s
    }
}

/// The index of the first `.` of `s`, or its length.
pub open spec fn dot_index(s: Seq<char>) -> int
    decreases s.len(),
{
    if s.len() == 0 {
        0
    } else if s[0] == '.' {
        0
    } else {
        1 + dot_index(s.skip(1))
    }
}

/// The C text of a float literal written with the decimal digits `digits`:
/// the integer part without leading zeros and the fraction without
/// trailing zeros, each at least one digit.
pub open spec fn float_text(digits: Seq<char>) -> Seq<char> {
    let d = dot_index(digits);
    let int_part = digits.take(d);
    let frac = if d < digits.len() {
        digits.skip(d + 1)
    } else {
        Seq::empty()
    };
    or_zero(strip_leading_zeros(int_part)) + "."@ + or_zero(strip_trailing_zeros(frac))
}

pub proof fn lemma_dot_index(s: Seq<char>)
    ensures
        0 <= dot_index(s) <= s.len(),
        dot_index(s) < s.len() ==> s[dot_index(s)] == '.',
        forall|k: int| 0 <= k < dot_index(s) ==> s[k] != '.',
    decreases s.len(),
{
    if s.len() > 0 && s[0] != '.' {
        lemma_dot_index(s.skip(1));
        assert forall|k: int| 0 <= k < dot_index(s) implies s[k] != '.' by {
            if k > 0 {
                assert(s.skip(1)[k - 1] == s[k]);
            }
        }
    }
}

/// The C text of a float literal written with the digits `digits`.
pub fn float_literal_text(digits: &str) -> (r: String)
    ensures
        r@ == float_text(digits@),
{
    proof {
        lemma_dot_index(digits@);
        reveal_strlit(".");
    }
    let d = crate::text::chars_of(digits);
    let mut dot: usize = 0;
    while dot < d.len() && d[dot] != '.'
        invariant
            dot <= d.len(),
            d@ == digits@,
            dot <= dot_index(d@),
        decreases d.len() - dot,
    {
        proof {
            lemma_dot_index(d@);
            if dot == dot_index(d@) && dot < d.len() {
                assert(d@[dot as int] == '.');
            }
        }
        dot = dot + 1;
    }
    proof {
        lemma_dot_index(d@);
    }
    assert(dot == dot_index(d@));
    let mut start: usize = 0;
    while start < dot && d[start] == '0'
        invariant
            start <= dot <= d.len(),
            d@ == digits@,
            strip_leading_zeros(d@.take(dot as int)) == strip_leading_zeros(d@.subrange(start as int, dot as int)),
        decreases dot - start,
    {
        assert(d@.subrange(start as int, dot as int).skip(1) =~= d@.subrange(start + 1, dot as int));
        start = start + 1;
    }
    assert(d@.subrange(0, dot as int) =~= d@.take(dot as int));
    let mut out = String::new();
    if start == dot {
        string_push(&mut out, '0');
    } else {
        let mut k: usize = start;
        while k < dot
            invariant
                start <= k <= dot <= d.len(),
                out@ == d@.subrange(start as int, k as int),
            decreases dot - k,
        {
            string_push(&mut out, d[k]);
            assert(d@.subrange(start as int, k + 1) =~= d@.subrange(start as int, k as int).push(d@[k as int]));
            k = k + 1;
        }
    }
    proof {
        assert(strip_leading_zeros(d@.subrange(start as int, dot as int)) == d@.subrange(start as int, dot as int));
        if start == dot {
            assert(d@.subrange(start as int, dot as int).len() == 0);
        }
    }
    string_push(&mut out, '.');
    let ghost int_done = out@;
    let frac_start: usize = if dot < d.len() { dot + 1 } else { d.len() };
    let mut stop: usize = d.len();
    while stop > frac_start && d[stop - 1] == '0'
        invariant
            frac_start <= stop <= d.len(),
            d@ == digits@,
            strip_trailing_zeros(d@.subrange(frac_start as int, d.len() as int)) == strip_trailing_zeros(
                d@.subrange(frac_start as int, stop as int),
            ),
        decreases stop,
    {
        assert(d@.subrange(frac_start as int, stop as int).drop_last() =~= d@.subrange(
            frac_start as int,
            stop - 1,
        ));
        stop = stop - 1;
    }
    if stop == frac_start {
        string_push(&mut out, '0');
    } else {
        let mut k: usize = frac_start;
        while k < stop
            invariant
                frac_start <= k <= stop <= d.len(),
                out@ == int_done + d@.subrange(frac_start as int, k as int),
            decreases stop - k,
        {
            string_push(&mut out, d[k]);
            assert(d@.subrange(frac_start as int, k + 1) =~= d@.subrange(frac_start as int, k as int).push(
                d@[k as int],
            ));
            k = k + 1;
        }
    }
    proof {
        let frac = if dot < d.len() {
            d@.skip(dot + 1)
        } else {
            Seq::<char>::empty()
        };
        assert(frac =~= d@.subrange(frac_start as int, d.len() as int));
        assert(strip_trailing_zeros(d@.subrange(frac_start as int, stop as int)) == d@.subrange(
            frac_start as int,
            stop as int,
        ));
    }
    out
}

/// The Violette-to-C translator. It keeps a type checker for the names and
/// types it meets, the function-pointer typedefs it has introduced, and
/// the lambdas it has lifted to top-level C functions.
pub struct Codegen {
    pub checker: Checker,
    pub extern_funcs: Vec<String>,
    pub typedefs: Vec<String>,
    pub fn_type_names: Vec<Entry<String>>,
    pub lambda_prototypes: Vec<String>,
    pub lifted_lambdas: Vec<String>,
    pub lambda_count: usize,
}

impl Codegen {
    pub open spec fn wf(&self) -> bool {
        &&& self.checker.wf()
        &&& unique_names(self.fn_type_names@)
    }

    /// The names of the extern functions met so far.
    pub open spec fn externs(&self) -> Set<Seq<char>> {
        Set::new(|n: Seq<char>| exists|i: int| 0 <= i < self.extern_funcs@.len() && self.extern_funcs@[i]@ == n)
    }

    /// `self` has the typedefs, lambda prototypes and lifted lambdas of `prev`.
    pub open spec fn fn_table(&self) -> FnTypeTable {
        FnTypeTable {
            names: table_map(self.fn_type_names@),
            count: self.fn_type_names@.len(),
            defs: texts(self.typedefs@),
        }
    }

    pub open spec fn keeps_output(&self, prev: &Codegen) -> bool {
        &&& self.typedefs == prev.typedefs
        &&& self.lambda_prototypes == prev.lambda_prototypes
        &&& self.lifted_lambdas == prev.lifted_lambdas
    }

    /// `self` is a later state of `prev`: it keeps every typedef, lambda
    /// prototype and lifted lambda, and counts lambdas on.
    pub open spec fn grows_from(&self, prev: &Codegen) -> bool {
        &&& self.wf()
        &&& extends(self.typedefs@, prev.typedefs@)
        &&& extends(self.lambda_prototypes@, prev.lambda_prototypes@)
        &&& extends(self.lifted_lambdas@, prev.lifted_lambdas@)
        &&& self.extern_funcs == prev.extern_funcs
        &&& self.checker.structs == prev.checker.structs
        &&& extends(self.checker.errors@, prev.checker.errors@)
    }

    /// A translator whose checker knows the built-in functions.
    pub fn new() -> (c: Codegen)
        ensures
            c.wf(),
            c.lambda_count == 0,
            c.typedefs@.len() == 0,
            c.lambda_prototypes@.len() == 0,
            c.lifted_lambdas@.len() == 0,
            c.extern_funcs@.len() == 0,
            c.checker.env.scope_maps().len() == 1,
            c.checker.env.scope_maps().last().contains_key("print"@),
            c.checker.env.scope_maps().last().contains_key("println"@),
            c.checker.env.scope_maps().last().contains_key("scanln"@),
    {
        let mut checker = Checker::new();
        checker.define_builtins();
        Codegen {
            checker,
            extern_funcs: Vec::new(),
            typedefs: Vec::new(),
            fn_type_names: Vec::new(),
            lambda_prototypes: Vec::new(),
            lifted_lambdas: Vec::new(),
            lambda_count: 0,
        }
    }

    /// The C type of a type. A function type is given a `typedef` of a
    /// function pointer, named `vio_fn_type_N`, made once per signature.
    pub fn c_type(&mut self, ty: &Ty) -> (r: String)
        requires
            old(self).wf(),
        ensures
            final(self).grows_from(old(self)),
            final(self).checker == old(self).checker,
            final(self).lambda_count == old(self).lambda_count,
            final(self).lambda_prototypes == old(self).lambda_prototypes,
            final(self).lifted_lambdas == old(self).lifted_lambdas,
            fn_free(ty@) ==> r@ == c_type_text(ty@) && *final(self) == *old(self),
            (r@, final(self).fn_table()) == c_type_of(old(self).fn_table(), ty@),
        decreases ty,
    {
        proof {
            reveal_strlit("int64_t");
            reveal_strlit("double");
            reveal_strlit("bool");
            reveal_strlit("uint32_t");
            reveal_strlit("VioString");
            reveal_strlit("void");
            reveal_strlit("unknown");
            reveal_strlit("*");
        }
        match ty {
            Ty::Int => string_from("int64_t"),
            Ty::Float => string_from("double"),
            Ty::Bool => string_from("bool"),
            Ty::Char => string_from("uint32_t"),
            Ty::String => string_from("VioString"),
            Ty::Struct(s) => s.clone(),
            Ty::Unit => string_from("void"),
            Ty::Fn { params, ret } => {
                let ret_c = self.c_type(ret);
                let ghost t1 = self.fn_table();
                let mut params_c: Vec<String> = Vec::new();
                proof {
                    assert(Ty::views(params@).take(0) =~= Seq::<TyView>::empty());
                    assert(texts(params_c@) =~= Seq::<Seq<char>>::empty());
                }
                let mut i: usize = 0;
                while i < params.len()
                    invariant
                        i <= params.len(),
                        self.grows_from(old(self)),
                        self.checker == old(self).checker,
                        self.lambda_count == old(self).lambda_count,
                        self.lambda_prototypes == old(self).lambda_prototypes,
                        self.lifted_lambdas == old(self).lifted_lambdas,
                        *ty is Fn && ty->Fn_params == *params,
                        (texts(params_c@), self.fn_table()) == c_types_of(t1, Ty::views(params@).take(i as int)),
                    decreases params.len() - i,
                {
                    proof {
                        assert(decreases_to!(params => params[i as int]));
                    }
                    let ghost before = params_c@;
                    let p = self.c_type(&params[i]);
                    params_c.push(p);
                    proof {
                        lemma_views(params@);
                        let vs = Ty::views(params@);
                        assert(vs.take(i + 1).drop_last() =~= vs.take(i as int));
                        assert(vs.take(i + 1).last() == params@[i as int]@);
                        assert(texts(params_c@) =~= texts(before).push(p@));
                    }
                    i = i + 1;
                }
                proof {
                    lemma_views(params@);
                    assert(Ty::views(params@).take(params.len() as int) =~= Ty::views(params@));
                }
                let params_str = if params_c.len() == 0 {
                    string_from("void")
                } else {
                    join_strings(&params_c, ", ")
                };
                let mut sig_key = ret_c.clone();
                string_push(&mut sig_key, '(');
                string_push_str(&mut sig_key, params_str.as_str());
                string_push(&mut sig_key, ')');
                if let Some(k) = find_entry(&self.fn_type_names, &sig_key) {
                    return self.fn_type_names[k].value.clone();
                }
                let mut typedef_name = string_from("vio_fn_type_");
                let n = usize_text(self.fn_type_names.len());
                string_push_str(&mut typedef_name, n.as_str());
                let mut typedef_def = string_from("typedef ");
                string_push_str(&mut typedef_def, ret_c.as_str());
                string_push_str(&mut typedef_def, " (*");
                string_push_str(&mut typedef_def, typedef_name.as_str());
                string_push_str(&mut typedef_def, ")(");
                string_push_str(&mut typedef_def, params_str.as_str());
                string_push_str(&mut typedef_def, ");");
                crate::typechecker::table::push_new_entry(&mut self.fn_type_names, sig_key, typedef_name.clone());
                let ghost defs_before = self.typedefs@;
                self.typedefs.push(typedef_def);
                proof {
                    lemma_texts_push(defs_before, typedef_def);
                }
                typedef_name
            },
            Ty::Ref { inner, .. } => {
                let mut r = self.c_type(inner);
                string_push_str(&mut r, "*");
                r
            },
            Ty::Infer => string_from("int64_t"),
            _ => string_from("unknown"),
        }
    }

    /// The C operator for `op`; anything else is refused as not an operator.
    pub fn correlate_operator(&mut self, op: &Token) -> (r: Result<String, CodegenError>)
        ensures
            *final(self) == *old(self),
            match operator_text(*op) {
                Some(t) => r matches Ok(s) && s@ == t,
                None => r matches Err(CodegenError::Unexpected(m)) && m@ == "Not an operator"@,
            },
    {
        let t: &str = match op {
            Token::Assign => "=",
            Token::Equals => "==",
            Token::NotEquals => "!=",
            Token::Less => "<",
            Token::Greater => ">",
            Token::LessOrEquals => "<=",
            Token::GreaterOrEquals => ">=",
            Token::Add => "+",
            Token::Subtract => "-",
            Token::Multiply => "*",
            Token::Divide => "/",
            Token::Modulus => "%",
            Token::Increment => "++",
            Token::Decrement => "--",
            Token::AddAndAssign => "+=",
            Token::SubAndAssign => "-=",
            Token::MulAndAssign => "*=",
            Token::DivAndAssign => "/=",
            Token::ModAndAssign => "%=",
            Token::LogicAnd => "&&",
            Token::LogicOr => "||",
            Token::LogicNot => "!",
            Token::BitAnd => "&",
            Token::BitOr => "|",
            Token::BitXOR => "^",
            Token::BitNot => "~",
            _ => {
                return Err(CodegenError::Unexpected(string_from("Not an operator")));
            },
        };
        Ok(string_from(t))
    }
}

/// The C name of a Violette identifier: each `$` written `_arg_`.
pub open spec fn c_ident_text(name: Seq<char>) -> Seq<char> {
    replace_char(name, '$', "_arg_"@)
}

/// The error for an expression the generator does not lower.
pub open spec fn unsupported_expression(e: Expression) -> Seq<char> {
    "this expression: "@ + if e is Block {
        "Block { .. }"@
    } else {
        "Range { .. }"@
    }
}

impl Codegen {
    /// Whether `name` was declared as an extern function.
    pub fn is_extern(&self, name: &String) -> (r: bool)
        ensures
            r == self.externs().contains(name@),
    {
        let mut i: usize = 0;
        while i < self.extern_funcs.len()
            invariant
                i <= self.extern_funcs.len(),
                forall|k: int| 0 <= k < i ==> self.extern_funcs@[k]@ != name@,
            decreases self.extern_funcs.len() - i,
        {
            if self.extern_funcs[i] == *name {
                assert(self.externs().contains(name@));
                return true;
            }
            i = i + 1;
        }
        false
    }

    /// The C name a call of the function `f` uses: `main`, runtime names
    /// (`vio_...`) and extern functions keep their name, other functions
    /// of the program are prefixed with `vio_user_`.
    pub fn c_function_name(&self, f: &String) -> (r: String)
        requires
            self.wf(),
        ensures
            r@ == c_call_name(self.checker.typing(), self.externs(), f@),
    {
        proof {
            reveal_strlit("main");
            reveal_strlit("vio_");
            reveal_strlit("vio_user_");
        }
        let main_name = string_from("main");
        if *f == main_name || has_prefix(f.as_str(), "vio_") || self.is_extern(f) {
            f.clone()
        } else if find_entry(&self.checker.funcs, f).is_some() {
            concat(&vec!["vio_user_", f.as_str()])
        } else {
            f.clone()
        }
    }

    pub fn emit_expression(&mut self, expr: &Expression) -> (r: Result<String, CodegenError>)
        requires
            old(self).wf(),
            expr_wf(*expr),
            expr_cg(*expr),
        ensures
            final(self).grows_from(old(self)),
            plain_expr(*expr) && expr_no_extern(*expr) ==> text_of(r) == c_expr(
                old(self).checker.typing(),
                old(self).externs(),
                *expr,
            ) && final(self).checker.typing() == old(self).checker.typing() && final(self).keeps_output(old(self)),
        decreases expr_size(*expr), 2int,
    {
        self.emit_expression_with_expected(expr, None)
    }

    /// The C expression for `expr`. `expected_ty` is the type the context
    /// wants, which types the parameters and result of a lambda that does
    /// not write them. Lambdas are lifted to `static` C functions.
    pub fn emit_expression_with_expected(&mut self, expr: &Expression, expected_ty: Option<&Ty>) -> (r: Result<
        String,
        CodegenError,
    >)
        requires
            old(self).wf(),
            expr_wf(*expr),
            expr_cg(*expr),
        ensures
            final(self).grows_from(old(self)),
            expr matches Expression::IntLiteral { val, .. } ==> (r matches Ok(s) && s@ == int_text(*val as int)),
            expr matches Expression::FloatLiteral { val, .. } ==> (r matches Ok(s) && s@ == float_text(val@)),
            expr matches Expression::BoolLiteral { val, .. } ==> (r matches Ok(s) && s@ == (if *val {
                "true"@
            } else {
                "false"@
            })),
            expr matches Expression::StringLiteral { val, .. } ==> (r matches Ok(s) && s@ == "vio_str_from_literal(\""@
                + escape_text(val@) + "\", "@ + digits_text(utf8_len(val@)) + ")"@),
            (expr is Block || expr is Range) ==> (r matches Err(CodegenError::Unsupported(m)) && m@
                == unsupported_expression(*expr)),
            plain_expr(*expr) && expr_no_extern(*expr) ==> text_of(r) == c_expr(
                old(self).checker.typing(),
                old(self).externs(),
                *expr,
            ) && final(self).checker.typing() == old(self).checker.typing() && final(self).keeps_output(old(self)),
        decreases expr_size(*expr), 1int,
    {
        let ghost g = self.checker.typing();
        let ghost x = self.externs();
        let ghost p = plain_expr(*expr) && expr_no_extern(*expr);
        proof {
            reveal_strlit("(");
            reveal_strlit(")");
            reveal_strlit("){0}");
            reveal_strlit("){ .");
            reveal_strlit(" }");
            reveal_strlit(" = ");
            reveal_strlit(", .");
            reveal_strlit("&");
            reveal_strlit("vio_str_concat(");
            reveal_strlit(", ");
            reveal_strlit("pow(");
            reveal_strlit(" ");
            reveal_strlit("vio_str_get(");
            reveal_strlit("(*");
            reveal_strlit(".");
        }
        match expr {
            Expression::IntLiteral { val, .. } => Ok(isize_text(*val)),
            Expression::FloatLiteral { val, .. } => Ok(float_literal_text(val.as_str())),
            Expression::BoolLiteral { val, .. } => {
                proof {
                    reveal_strlit("true");
                    reveal_strlit("false");
                }
                if *val {
                    Ok(string_from("true"))
                } else {
                    Ok(string_from("false"))
                }
            },
            Expression::StringLiteral { val, .. } => {
                let escaped = escape_default_text(val.as_str());
                let byte_len = usize_text(str_byte_len(val.as_str()));
                let mut out = string_from("vio_str_from_literal(\"");
                string_push_str(&mut out, escaped.as_str());
                string_push_str(&mut out, "\", ");
                string_push_str(&mut out, byte_len.as_str());
                string_push_str(&mut out, ")");
                proof {
                    reveal_strlit("vio_str_from_literal(\"");
                    reveal_strlit("\", ");
                }
                Ok(out)
            },
            Expression::StructLiteral { .. } => self.emit_struct_literal(expr),
            Expression::Prefix { operator, right, .. } => {
                if matches!(operator, Token::BitAnd) {
                    let r = self.emit_expression(right)?;
                    return Ok(concat(&vec!["&", r.as_str()]));
                }
                let op = self.correlate_operator(operator)?;
                let r = self.emit_expression(right)?;
                Ok(concat(&vec![op.as_str(), r.as_str()]))
            },
            Expression::Infix { .. } => self.emit_infix(expr),
            Expression::Postfix { left, operator, .. } => {
                let l = self.emit_expression(left)?;
                let op = self.correlate_operator(operator)?;
                Ok(concat(&vec![l.as_str(), op.as_str()]))
            },
            Expression::Index { left, index, .. } => {
                let l = self.emit_expression(left)?;
                let i = self.emit_expression(index)?;
                Ok(concat(&vec!["vio_str_get(", l.as_str(), ", ", i.as_str(), ")"]))
            },
            Expression::Identifier { name, .. } => {
                let clean = replace_all(name.as_str(), '$', "_arg_");
                if let Some(entity) = self.checker.env.lookup(name.as_str()) {
                    if matches!(entity.ty, Ty::Ref { .. }) {
                        return Ok(concat(&vec!["(*", clean.as_str(), ")"]));
                    }
                }
                Ok(clean)
            },
            Expression::Call { function, args, .. } => self.emit_call(function, args),
            Expression::MethodCall { object, name, args, .. } => self.emit_method_call(object, name, args),
            Expression::Field { object, name, .. } => {
                let o = self.emit_expression(object)?;
                Ok(concat(&vec![o.as_str(), ".", name.as_str()]))
            },
            Expression::Lambda { params, return_type, body, .. } => self.emit_lambda(
                params,
                return_type,
                body,
                expected_ty,
            ),
            Expression::Match { target, arms, .. } => self.emit_match(expr, target, arms, expected_ty),
            Expression::Block { .. } => {
                proof {
                    reveal_strlit("this expression: ");
                    reveal_strlit("Block { .. }");
                }
                let mut m = string_from("this expression: ");
                string_push_str(&mut m, "Block { .. }");
                Err(CodegenError::Unsupported(m))
            },
            Expression::Range { .. } => {
                proof {
                    reveal_strlit("this expression: ");
                    reveal_strlit("Range { .. }");
                }
                let mut m = string_from("this expression: ");
                string_push_str(&mut m, "Range { .. }");
                Err(CodegenError::Unsupported(m))
            },
        }
    }

    /// A struct literal `(S){ .f = v, .. }`, or `(S){0}` without fields.
    fn emit_struct_literal(&mut self, expr: &Expression) -> (r: Result<String, CodegenError>)
        requires
            old(self).wf(),
            expr_wf(*expr),
            expr_cg(*expr),
            expr is StructLiteral,
        ensures
            final(self).grows_from(old(self)),
            plain_expr(*expr) && expr_no_extern(*expr) ==> text_of(r) == c_expr(
                old(self).checker.typing(),
                old(self).externs(),
                *expr,
            ) && final(self).checker.typing() == old(self).checker.typing() && final(self).keeps_output(old(self)),
        decreases expr_size(*expr), 0int,
    {
        let ghost g = self.checker.typing();
        let ghost x = self.externs();
        let ghost p = plain_expr(*expr) && expr_no_extern(*expr);
        proof {
            reveal_strlit("(");
            reveal_strlit("){0}");
            reveal_strlit("){ .");
            reveal_strlit(" }");
            reveal_strlit(" = ");
        }
        let (name, fields) = match expr {
            Expression::StructLiteral { name, fields, .. } => (name, fields),
            _ => {
                return Err(CodegenError::Unexpected(string_from("not a struct literal")));
            },
        };
        assert(expr_size(*expr) == 1 + crate::parser::shape::fields_size(fields@));
        proof {
            crate::parser::shape::lemma_fields_wf(fields@);
            crate::parser::shape::lemma_fields_cg(fields@);
            crate::parser::shape::lemma_fields_size(fields@);
            lemma_plain_fields(fields@);
            lemma_fields_no_extern(fields@);
        }
        if fields.len() == 0 {
            return Ok(concat(&vec!["(", name.as_str(), "){0}"]));
        }
        let mut field_texts: Vec<String> = Vec::new();
        proof {
            assert(fields@.take(0) =~= Seq::<crate::parser::expression::StructLiteralField>::empty());
            assert(texts(field_texts@) =~= Seq::<Seq<char>>::empty());
        }
        let mut i: usize = 0;
        while i < fields.len()
            invariant
                i <= fields.len(),
                self.grows_from(old(self)),
                forall|k: int| 0 <= k < fields.len() ==> expr_wf(*(#[trigger] fields@[k]).field_val),
                forall|k: int| 0 <= k < fields.len() ==> expr_cg(*(#[trigger] fields@[k]).field_val),
                forall|k: int| 0 <= k < fields.len() ==> expr_size(*(#[trigger] fields@[k]).field_val)
                    <= crate::parser::shape::fields_size(fields@),
                crate::parser::shape::fields_size(fields@) < expr_size(*expr),
                expr is StructLiteral,
                x == old(self).externs(),
                p ==> forall|k: int| 0 <= k < fields.len() ==> plain_expr(*(#[trigger] fields@[k]).field_val)
                    && expr_no_extern(*fields@[k].field_val),
                p ==> self.checker.typing() == g && self.keeps_output(old(self)),
                p ==> c_fields(g, x, fields@.take(i as int)) == Ok::<Seq<Seq<char>>, CgErr>(texts(field_texts@)),
                g == old(self).checker.typing(),
                p == (plain_expr(*expr) && expr_no_extern(*expr)),
                expr matches Expression::StructLiteral { name: n, fields: fs, .. } && n@ == name@ && fs@ == fields@,
            decreases fields.len() - i,
        {
            let ghost before = field_texts@;
            proof {
                assert(fields@.take(i + 1).drop_last() == fields@.take(i as int));
                assert(fields@.take(i + 1).last() == fields@[i as int]);
            }
            let f_val = match self.emit_expression(&fields[i].field_val) {
                Ok(v) => v,
                Err(e) => {
                    proof {
                        if p {
                            assert(c_expr(g, x, *fields@[i as int].field_val) == Err::<Seq<char>, CgErr>(e@));
                            assert(c_fields(g, x, fields@.take(i + 1)) == Err::<Seq<Seq<char>>, CgErr>(e@));
                            lemma_c_fields_err(g, x, fields@, i + 1);
                            assert(c_fields(g, x, fields@) == Err::<Seq<Seq<char>>, CgErr>(e@));
                            assert(c_expr(g, x, *expr) == Err::<Seq<char>, CgErr>(e@));
                        }
                    }
                    return Err(e);
                },
            };
            field_texts.push(concat(&vec![fields[i].field_name.as_str(), " = ", f_val.as_str()]));
            proof {
                assert(texts(field_texts@) =~= texts(before).push(field_texts@.last()@));
            }
            i = i + 1;
        }
        proof {
            assert(fields@.take(fields.len() as int) == fields@);
        }
        let joined_fields = join_strings(&field_texts, ", .");
        Ok(concat(&vec!["(", name.as_str(), "){ .", joined_fields.as_str(), " }"]))
    }

    /// A binary operation: string `+` concatenates, `**` calls `pow`, any
    /// other operator is written between its operands.
    fn emit_infix(&mut self, expr: &Expression) -> (r: Result<String, CodegenError>)
        requires
            old(self).wf(),
            expr_wf(*expr),
            expr_cg(*expr),
            expr is Infix,
        ensures
            final(self).grows_from(old(self)),
            plain_expr(*expr) && expr_no_extern(*expr) ==> text_of(r) == c_expr(
                old(self).checker.typing(),
                old(self).externs(),
                *expr,
            ) && final(self).checker.typing() == old(self).checker.typing() && final(self).keeps_output(old(self)),
        decreases expr_size(*expr), 0int,
    {
        proof {
            reveal_strlit("(");
            reveal_strlit(")");
            reveal_strlit("vio_str_concat(");
            reveal_strlit(", ");
            reveal_strlit("pow(");
            reveal_strlit(" ");
        }
        let (left, operator, right) = match expr {
            Expression::Infix { left, operator, right, .. } => (left, operator, right),
            _ => {
                return Err(CodegenError::Unexpected(string_from("not a binary operation")));
            },
        };
        assert(expr_size(*expr) == 1 + expr_size(**left) + expr_size(**right));
        if matches!(operator, Token::Add) {
            let lt = self.checker.infer(left, None);
            if matches!(lt, Ty::String) {
                let rt = self.checker.infer(right, None);
                if matches!(rt, Ty::String) {
                    let l = self.emit_expression(left)?;
                    let r = self.emit_expression(right)?;
                    return Ok(concat(&vec!["vio_str_concat(", l.as_str(), ", ", r.as_str(), ")"]));
                }
            }
        }
        if matches!(operator, Token::Power) {
            let l = self.emit_expression(left)?;
            let r = self.emit_expression(right)?;
            return Ok(concat(&vec!["pow(", l.as_str(), ", ", r.as_str(), ")"]));
        }
        let l = self.emit_expression(left)?;
        let op = self.correlate_operator(operator)?;
        let r = self.emit_expression(right)?;
        Ok(concat(&vec!["(", l.as_str(), " ", op.as_str(), " ", r.as_str(), ")"]))
    }

    /// A call `function(args)`. `print` and `println` of one argument call
    /// the runtime function for the argument's type; `scanln()` calls the
    /// runtime's. Other arguments are lowered with the callee's parameter
    /// types as the types they should have.
    fn emit_call(&mut self, function: &Expression, args: &Vec<Expression>) -> (r: Result<String, CodegenError>)
        requires
            old(self).wf(),
            expr_wf(*function),
            expr_cg(*function),
            exprs_wf(args@),
            exprs_cg(args@),
        ensures
            final(self).grows_from(old(self)),
            plain_expr(*function) && plain_exprs(args@) && expr_no_extern(*function) && exprs_no_extern(args@)
                ==> text_of(r) == c_call(old(self).checker.typing(), old(self).externs(), *function, args@)
                && final(self).checker.typing() == old(self).checker.typing() && final(self).keeps_output(old(self)),
        decreases expr_size(*function) + exprs_size(args@), 4int,
    {
        let ghost g = self.checker.typing();
        let ghost x = self.externs();
        let ghost p = plain_expr(*function) && plain_exprs(args@) && expr_no_extern(*function) && exprs_no_extern(args@);
        proof {
            lemma_exprs_wf(args@);
            lemma_exprs_cg(args@);
            lemma_exprs_size(args@);
            lemma_plain_exprs(args@);
            lemma_exprs_no_extern(args@);
            reveal_strlit("print");
            reveal_strlit("println");
            reveal_strlit("scanln");
            reveal_strlit("int");
            reveal_strlit("float");
            reveal_strlit("bool");
            reveal_strlit("string");
            reveal_strlit("char");
            reveal_strlit("vio_");
            reveal_strlit("_");
            reveal_strlit("(");
            reveal_strlit(")");
            reveal_strlit("()");
            reveal_strlit(", ");
            reveal_strlit("print for this type: ");
        }
        if let Expression::Identifier { name, .. } = function {
            let print_name = string_from("print");
            let println_name = string_from("println");
            let scanln_name = string_from("scanln");
            if (*name == print_name || *name == println_name) && args.len() == 1 {
                let arg_ty = self.checker.infer(&args[0], None);
                let suffix: &str = match arg_ty {
                    Ty::Int => "int",
                    Ty::Float => "float",
                    Ty::Bool => "bool",
                    Ty::String => "string",
                    Ty::Char => "char",
                    _ => {
                        let d = arg_ty.debug();
                        return Err(CodegenError::Unsupported(concat(&vec!["print for this type: ", d.as_str()])));
                    },
                };
                assert(print_suffix(arg_ty@) == Some(suffix@));
                let a = self.emit_expression(&args[0])?;
                return Ok(concat(&vec!["vio_", name.as_str(), "_", suffix, "(", a.as_str(), ")"]));
            }
            if *name == scanln_name && args.len() == 0 {
                return Ok(concat(&vec!["vio_", name.as_str(), "()"]));
            }
        }
        self.emit_general_call(function, args)
    }

    /// A call that is not one of the runtime's input and output calls: the
    /// callee's C name, then the arguments, lowered with the callee's
    /// parameter types as the types they should have.
    fn emit_general_call(&mut self, function: &Expression, args: &Vec<Expression>) -> (r: Result<String, CodegenError>)
        requires
            old(self).wf(),
            expr_wf(*function),
            expr_cg(*function),
            exprs_wf(args@),
            exprs_cg(args@),
        ensures
            final(self).grows_from(old(self)),
            plain_expr(*function) && plain_exprs(args@) && expr_no_extern(*function) && exprs_no_extern(args@)
                ==> text_of(r) == (match c_expr(old(self).checker.typing(), old(self).externs(), *function) {
                Ok(f) => match c_exprs(old(self).checker.typing(), old(self).externs(), args@) {
                    Ok(parts) => Ok(call_text(c_call_name(old(self).checker.typing(), old(self).externs(), f), parts)),
                    Err(m) => Err(m),
                },
                Err(m) => Err(m),
            }) && final(self).checker.typing() == old(self).checker.typing() && final(self).keeps_output(old(self)),
        decreases expr_size(*function) + exprs_size(args@), 3int,
    {
        let ghost g = self.checker.typing();
        let ghost x = self.externs();
        let ghost p = plain_expr(*function) && plain_exprs(args@) && expr_no_extern(*function) && exprs_no_extern(args@);
        proof {
            lemma_exprs_wf(args@);
            lemma_exprs_cg(args@);
            lemma_exprs_size(args@);
            lemma_plain_exprs(args@);
            lemma_exprs_no_extern(args@);
            reveal_strlit("(");
            reveal_strlit(")");
            reveal_strlit(", ");
        }
        let callee_ty = self.checker.infer(function, None);
        let expected_params: Option<Vec<Ty>> = match &callee_ty {
            Ty::Fn { params, .. } => Some(Ty::duplicate_all(params)),
            _ => None,
        };
        let f = self.emit_expression(function)?;
        let c_fn_name = self.c_function_name(&f);
        let mut parts: Vec<String> = Vec::new();
        proof {
            assert(args@.take(0) =~= Seq::<Expression>::empty());
            assert(texts(parts@) =~= Seq::<Seq<char>>::empty());
        }
        let mut i: usize = 0;
        while i < args.len()
            invariant
                i <= args.len(),
                self.grows_from(old(self)),
                forall|k: int| 0 <= k < args.len() ==> expr_wf(#[trigger] args@[k]),
                forall|k: int| 0 <= k < args.len() ==> expr_cg(#[trigger] args@[k]),
                forall|k: int| 0 <= k < args.len() ==> expr_size(#[trigger] args@[k]) <= exprs_size(args@),
                x == old(self).externs(),
                p ==> forall|k: int| 0 <= k < args.len() ==> plain_expr(#[trigger] args@[k]) && expr_no_extern(args@[k]),
                p ==> self.checker.typing() == g && self.keeps_output(old(self)),
                p ==> c_exprs(g, x, args@.take(i as int)) == Ok::<Seq<Seq<char>>, CgErr>(texts(parts@)),
                g == old(self).checker.typing(),
                p == (plain_expr(*function) && plain_exprs(args@) && expr_no_extern(*function) && exprs_no_extern(args@)),
                p ==> c_expr(g, x, *function) == Ok::<Seq<char>, CgErr>(f@),
                p ==> c_fn_name@ == c_call_name(g, x, f@),
            decreases args.len() - i,
        {
            let ghost before = parts@;
            proof {
                assert(args@.take(i + 1).drop_last() == args@.take(i as int));
                assert(args@.take(i + 1).last() == args@[i as int]);
            }
            let exp: Option<&Ty> = match &expected_params {
                Some(ps) => if i < ps.len() {
                    Some(&ps[i])
                } else {
                    None
                },
                None => None,
            };
            let a = match self.emit_expression_with_expected(&args[i], exp) {
                Ok(v) => v,
                Err(e) => {
                    proof {
                        if p {
                            lemma_c_exprs_err(g, x, args@, i + 1);
                        }
                    }
                    return Err(e);
                },
            };
            parts.push(a);
            proof {
                assert(texts(parts@) =~= texts(before).push(parts@.last()@));
            }
            i = i + 1;
        }
        proof {
            assert(args@.take(args.len() as int) == args@);
        }
        let joined_args = join_strings(&parts, ", ");
        Ok(concat(&vec![c_fn_name.as_str(), "(", joined_args.as_str(), ")"]))
    }

    /// A method call `object.name(args)`: `S.m(..)` for a struct `S` calls
    /// `vio_user_S_m`; a call through a name that is not bound calls the
    /// global `vio_user_name`; a call on a value passes it first.
    #[verifier::rlimit(40)]
    /// The C function a method `name` called on a value of the struct `s`
    /// calls.
    fn struct_method_name(&self, s: &String, name: &String) -> (r: String)
        requires
            self.wf(),
        ensures
            r@ == struct_method_c_name(self.checker.typing(), s@, name@),
    {
        proof {
            reveal_strlit("vio_user_");
            reveal_strlit("_");
        }
        let key = crate::typechecker::checker::dotted(s, name);
        if find_entry(&self.checker.funcs, &key).is_none() && find_entry(&self.checker.funcs, name).is_some() {
            concat(&vec!["vio_user_", name.as_str()])
        } else {
            concat(&vec!["vio_user_", s.as_str(), "_", name.as_str()])
        }
    }

    fn emit_method_call(&mut self, object: &Expression, name: &String, args: &Vec<Expression>) -> (r: Result<
        String,
        CodegenError,
    >)
        requires
            old(self).wf(),
            expr_wf(*object),
            expr_cg(*object),
            exprs_wf(args@),
            exprs_cg(args@),
        ensures
            final(self).grows_from(old(self)),
            plain_expr(*object) && plain_exprs(args@) && expr_no_extern(*object) && exprs_no_extern(args@) ==> text_of(r)
                == c_method_call(old(self).checker.typing(), old(self).externs(), *object, name@, args@)
                && final(self).checker.typing() == old(self).checker.typing() && final(self).keeps_output(old(self)),
        decreases expr_size(*object) + exprs_size(args@), 3int,
    {
        let ghost g = self.checker.typing();
        let ghost x = self.externs();
        let ghost p = plain_expr(*object) && plain_exprs(args@) && expr_no_extern(*object) && exprs_no_extern(args@);
        proof {
            lemma_exprs_wf(args@);
            lemma_exprs_cg(args@);
            lemma_exprs_size(args@);
            lemma_plain_exprs(args@);
            lemma_exprs_no_extern(args@);
            reveal_strlit("main");
            reveal_strlit("vio_");
            reveal_strlit("vio_user_");
            reveal_strlit("_");
            reveal_strlit("(");
            reveal_strlit(")");
        }
        let main_name = string_from("main");
        let (c_fn_name, is_static): (String, bool) = match object {
            Expression::Identifier { name: obj_name, .. } => {
                if find_entry(&self.checker.structs, obj_name).is_some() {
                    (concat(&vec!["vio_user_", obj_name.as_str(), "_", name.as_str()]), true)
                } else if *name == main_name || has_prefix(name.as_str(), "vio_") || self.is_extern(name) {
                    (name.clone(), false)
                } else if self.checker.env.lookup(obj_name.as_str()).is_none() {
                    (concat(&vec!["vio_user_", name.as_str()]), true)
                } else {
                    let obj_ty = self.checker.infer(object, None);
                    match obj_ty {
                        Ty::Struct(s) => (self.struct_method_name(&s, name), false),
                        _ => (concat(&vec!["vio_user_", name.as_str()]), false),
                    }
                }
            },
            _ => {
                let obj_ty = self.checker.infer(object, None);
                match obj_ty {
                    Ty::Struct(s) => (self.struct_method_name(&s, name), false),
                    _ => (concat(&vec!["vio_user_", name.as_str()]), false),
                }
            },
        };
        assert(p ==> (c_fn_name@, is_static) == method_target(g, x, *object, name@));
        assert(p ==> self.checker.typing() == g);
        let mut all_args: Vec<String> = Vec::new();
        if !is_static {
            let o = self.emit_expression(object)?;
            all_args.push(o);
        }
        let ghost pre = texts(all_args@);
        proof {
            assert(args@.take(0) =~= Seq::<Expression>::empty());
            assert(pre + Seq::<Seq<char>>::empty() =~= pre);
        }
        let mut i: usize = 0;
        while i < args.len()
            invariant
                i <= args.len(),
                self.grows_from(old(self)),
                forall|k: int| 0 <= k < args.len() ==> expr_wf(#[trigger] args@[k]),
                forall|k: int| 0 <= k < args.len() ==> expr_cg(#[trigger] args@[k]),
                forall|k: int| 0 <= k < args.len() ==> expr_size(#[trigger] args@[k]) <= exprs_size(args@),
                x == old(self).externs(),
                p ==> forall|k: int| 0 <= k < args.len() ==> plain_expr(#[trigger] args@[k]) && expr_no_extern(args@[k]),
                p ==> self.checker.typing() == g && self.keeps_output(old(self)),
                p ==> (match c_exprs(g, x, args@.take(i as int)) {
                    Ok(parts) => texts(all_args@) == pre + parts,
                    Err(_) => false,
                }),
                g == old(self).checker.typing(),
                p == (plain_expr(*object) && plain_exprs(args@) && expr_no_extern(*object) && exprs_no_extern(args@)),
                p ==> (c_fn_name@, is_static) == method_target(g, x, *object, name@),
                p ==> pre == (if is_static {
                    Seq::<Seq<char>>::empty()
                } else {
                    seq![c_expr(g, x, *object)->Ok_0]
                }),
                p && !is_static ==> c_expr(g, x, *object) is Ok,
            decreases args.len() - i,
        {
            let ghost before = all_args@;
            proof {
                assert(args@.take(i + 1).drop_last() == args@.take(i as int));
                assert(args@.take(i + 1).last() == args@[i as int]);
            }
            let a = match self.emit_expression(&args[i]) {
                Ok(v) => v,
                Err(e) => {
                    proof {
                        if p {
                            lemma_c_exprs_err(g, x, args@, i + 1);
                        }
                    }
                    return Err(e);
                },
            };
            all_args.push(a);
            proof {
                if p {
                    let parts = c_exprs(g, x, args@.take(i as int))->Ok_0;
                    assert(texts(all_args@) =~= texts(before).push(all_args@.last()@));
                    assert((pre + parts).push(all_args@.last()@) =~= pre + parts.push(all_args@.last()@));
                }
            }
            i = i + 1;
        }
        proof {
            assert(args@.take(args.len() as int) == args@);
        }
        let joined_args = join_strings(&all_args, ", ");
        Ok(concat(&vec![c_fn_name.as_str(), "(", joined_args.as_str(), ")"]))
    }

    /// A lambda, lifted to a `static` C function `vio_lambda_N`; its name
    /// is the value. Parameters without a type take the expected one, else
    /// `int`; without a written result type the result is the expected one,
    /// else the type of the first typed `return`, else `void`.
    fn emit_lambda(
        &mut self,
        params: &Vec<FuncParam>,
        return_type: &Option<Type>,
        body: &Vec<Statement>,
        expected_ty: Option<&Ty>,
    ) -> (r: Result<String, CodegenError>)
        requires
            old(self).wf(),
            params_wf(params@),
            match *return_type {
                Some(t) => type_wf(t),
                None => true,
            },
            stmts_wf(body@),
            stmts_cg(body@),
        ensures
            final(self).grows_from(old(self)),
            r matches Ok(s) ==> s@ == "vio_lambda_"@ + digits_text(old(self).lambda_count as nat),
        decreases stmts_size(body@), 6int,
    {
        proof {
            lemma_params_wf(params@);
            lemma_stmts_wf(body@);
            reveal_strlit("vio_lambda_");
        }
        let n = usize_text(self.lambda_count);
        let mut lambda_name = string_from("vio_lambda_");
        string_push_str(&mut lambda_name, n.as_str());
        self.lambda_count = self.lambda_count.wrapping_add(1);
        let (expected_params, expected_ret): (Option<&Vec<Ty>>, Option<&Ty>) = match expected_ty {
            Some(Ty::Fn { params: ep, ret: er }) => (Some(ep), Some(&**er)),
            _ => (None, None),
        };
        self.checker.env.push();
        let mut param_strs: Vec<String> = Vec::new();
        let mut i: usize = 0;
        while i < params.len()
            invariant
                i <= params.len(),
                self.grows_from(old(self)),
                forall|k: int| 0 <= k < params.len() ==> type_wf(#[trigger] params@[k].param_type),
            decreases params.len() - i,
        {
            let clean_name = replace_all(params[i].name.as_str(), '$', "_arg_");
            let mut ty = self.checker.resolve(&params[i].param_type);
            if matches!(ty, Ty::Infer | Ty::Error) {
                ty = match expected_params {
                    Some(ep) => if i < ep.len() {
                        ep[i].duplicate()
                    } else {
                        Ty::Int
                    },
                    None => Ty::Int,
                };
            }
            let ct = self.c_type(&ty);
            self.checker.defined(params[i].name.clone(), ty, BindingKind::Let, params[i].span);
            param_strs.push(concat(&vec![ct.as_str(), " ", clean_name.as_str()]));
            i = i + 1;
        }
        let ret_ty = match return_type {
            Some(t) => self.checker.resolve(t),
            None => {
                let from_expected = match expected_ret {
                    Some(t) => if !matches!(t, Ty::Infer | Ty::Error) {
                        Some(t.duplicate())
                    } else {
                        None
                    },
                    None => None,
                };
                match from_expected {
                    Some(t) => t,
                    None => {
                        let mut inferred: Option<Ty> = None;
                        let mut k: usize = 0;
                        while k < body.len() && inferred.is_none()
                            invariant
                                k <= body.len(),
                                self.grows_from(old(self)),
                                forall|x: int| 0 <= x < body.len() ==> stmt_wf(#[trigger] body@[x]),
                            decreases body.len() - k,
                        {
                            if let Statement::Return { value: Some(v), .. } = &body[k] {
                                let t = self.checker.infer(v, None);
                                if !matches!(t, Ty::Error | Ty::Infer) {
                                    inferred = Some(t);
                                }
                            }
                            k = k + 1;
                        }
                        match inferred {
                            Some(t) => t,
                            None => Ty::Unit,
                        }
                    },
                }
            },
        };
        let ret_c = self.c_type(&ret_ty);
        let param_list = if param_strs.len() == 0 {
            string_from("void")
        } else {
            join_strings(&param_strs, ", ")
        };
        let body_c = self.emit_block(body)?;
        self.checker.env.pop();
        self.lambda_prototypes.push(
            concat(&vec!["static ", ret_c.as_str(), " ", lambda_name.as_str(), "(", param_list.as_str(), ");"]),
        );
        self.lifted_lambdas.push(
            concat(
                &vec![
                    "static ",
                    ret_c.as_str(),
                    " ",
                    lambda_name.as_str(),
                    "(",
                    param_list.as_str(),
                    ") {\n",
                    body_c.as_str(),
                    "\n}\n",
                ],
            ),
        );
        Ok(lambda_name)
    }

    /// A `match` on a value of a struct-like variant type, lowered to a C
    /// statement expression that switches on the value's tag.
    #[verifier::spinoff_prover]
    #[verifier::rlimit(100)]
    fn emit_match(
        &mut self,
        expr: &Expression,
        target: &Expression,
        arms: &Vec<crate::parser::statement::MatchArm>,
        expected_ty: Option<&Ty>,
    ) -> (r: Result<String, CodegenError>)
        requires
            old(self).wf(),
            expr_wf(*expr),
            expr_wf(*target),
            expr_cg(*target),
            crate::parser::shape::arms_wf(arms@),
            crate::parser::shape::arms_cg(arms@),
        ensures
            final(self).grows_from(old(self)),
            expr_no_extern(*target) && !(ty_of(old(self).checker.typing(), *target, None) is Struct) ==> text_of(r)
                == Err::<Seq<char>, CgErr>(CgErr::Unsupported("Non-struct match target"@)),
            expr_no_extern(*expr) && expr_no_extern(*target) && plain_expr(*target) && fn_free(
                match_res_view(old(self).checker.typing(), *expr, expected_view(expected_ty)),
            ) && ty_of(old(self).checker.typing(), *target, None) is Struct ==> match r {
                Ok(t) => is_match_text(
                    old(self).checker.typing(),
                    old(self).externs(),
                    *expr,
                    *target,
                    arms@,
                    expected_view(expected_ty),
                    old(self).lambda_count as nat,
                    t@,
                ),
                Err(e) => c_expr(old(self).checker.typing(), old(self).externs(), *target) is Err ==> text_of(r) == c_expr(
                    old(self).checker.typing(),
                    old(self).externs(),
                    *target,
                ),
            },
        decreases expr_size(*target) + crate::parser::shape::arms_size(arms@), 6int,
    {
        proof {
            crate::parser::shape::lemma_arms_wf(arms@);
            crate::parser::shape::lemma_arms_cg(arms@);
            crate::parser::shape::lemma_arms_size(arms@);
        }
        let ghost g = self.checker.typing();
        let ghost x = self.externs();
        let ghost n0 = self.lambda_count;
        let target_ty = self.checker.infer(target, None);
        let variant_name = match &target_ty {
            Ty::Struct(name) => name.clone(),
            _ => {
                return Err(CodegenError::Unsupported(string_from("Non-struct match target")));
            },
        };
        let res_ty = match expected_ty {
            Some(t) => t.duplicate(),
            None => self.checker.infer(expr, None),
        };
        let ghost plain = expr_no_extern(*expr) && expr_no_extern(*target) && plain_expr(*target) && fn_free(
            match_res_view(g, *expr, expected_view(expected_ty)),
        );
        proof {
            if plain {
                assert(res_ty@ == match_res_view(g, *expr, expected_view(expected_ty)));
            }
        }
        let res_c_type = self.c_type(&res_ty);
        let n = usize_text(self.lambda_count);
        let target_var = concat(&vec!["_vio_match_target_", n.as_str()]);
        let res_var = concat(&vec!["_vio_match_res_", n.as_str()]);
        self.lambda_count = self.lambda_count.wrapping_add(1);
        let target_val_str = match self.emit_expression(target) {
            Ok(t) => t,
            Err(e) => {
                return Err(e);
            },
        };
        let cases_c = match self.emit_match_cases(arms, &variant_name, &res_var) {
            Ok(c) => c,
            Err(e) => {
                return Err(e);
            },
        };
        let target_c = self.c_type(&target_ty);
        let res = match_block(target_c.as_str(), target_var.as_str(), target_val_str.as_str(), res_c_type.as_str(), res_var.as_str(), &cases_c);
        proof {
            let p = match_prefix(target_c@, target_val_str@, res_c_type@, n0 as nat);
            let q = match_suffix(n0 as nat);
            let cases_text = joined(texts(cases_c@), "\n"@);
            assert(target_var@ == "_vio_match_target_"@ + digits_text(n0 as nat));
            assert(res_var@ == "_vio_match_res_"@ + digits_text(n0 as nat));
            assert(res@ =~= p + cases_text + q);
            if plain {
                assert(target_ty@ == ty_of(g, *target, None));
                assert(ty_of(g, *target, None) == TyView::Struct(variant_name@));
                assert(target_c@ == variant_name@);
                assert(res_c_type@ == c_type_text(match_res_view(g, *expr, expected_view(expected_ty))));
                assert(c_expr(g, x, *target) == Ok::<Seq<char>, CgErr>(target_val_str@));
                reveal(is_match_text);
                assert(cases_ok(variant_name@, arms@, cases_c@));
                assert(is_match_text(g, x, *expr, *target, arms@, expected_view(expected_ty), n0 as nat, res@));
            }
        }
        Ok(res)
    }

    /// The C `case`s of a `match` on the variant type `variant_name`, each
    /// storing its arm's value in `res_var` and ending with `break;`.
    fn emit_match_cases(
        &mut self,
        arms: &Vec<crate::parser::statement::MatchArm>,
        variant_name: &String,
        res_var: &String,
    ) -> (r: Result<Vec<String>, CodegenError>)
        requires
            old(self).wf(),
            crate::parser::shape::arms_wf(arms@),
            crate::parser::shape::arms_cg(arms@),
        ensures
            final(self).grows_from(old(self)),
            r matches Ok(v) ==> cases_ok(variant_name@, arms@, v@),
        decreases crate::parser::shape::arms_size(arms@), 6int,
    {
        proof {
            crate::parser::shape::lemma_arms_wf(arms@);
            crate::parser::shape::lemma_arms_cg(arms@);
            crate::parser::shape::lemma_arms_size(arms@);
            reveal(cases_ok);
        }
        let mut cases_c: Vec<String> = Vec::new();
        let mut i: usize = 0;
        while i < arms.len()
            invariant
                i <= arms.len(),
                self.grows_from(old(self)),
                forall|k: int| 0 <= k < arms.len() ==> expr_wf((#[trigger] arms@[k]).pattern) && expr_wf(arms@[k].body),
                forall|k: int| 0 <= k < arms.len() ==> crate::parser::shape::pattern_shape_ok((#[trigger] arms@[k]).pattern)
                    && expr_cg(arms@[k].pattern) && expr_cg(arms@[k].body),
                forall|k: int| 0 <= k < arms.len() ==> expr_size((#[trigger] arms@[k]).pattern) + expr_size(arms@[k].body)
                    <= crate::parser::shape::arms_size(arms@),
                cases_c.len() == i,
                forall|k: int| 0 <= k < i ==> is_case_text(variant_name@, arms@[k].pattern, (#[trigger] cases_c@[k])@),
            decreases arms.len() - i,
        {
            let c = match self.emit_match_arm(&arms[i], variant_name, res_var) {
                Ok(c) => c,
                Err(e) => {
                    return Err(e);
                },
            };
            let ghost before = cases_c@;
            cases_c.push(c);
            proof {
                assert forall|k: int| 0 <= k < i + 1 implies is_case_text(
                    variant_name@,
                    arms@[k].pattern,
                    (#[trigger] cases_c@[k])@,
                ) by {
                    if k < i {
                        assert(cases_c@[k] == before[k]);
                    }
                }
            }
            i = i + 1;
        }
        proof {
            reveal(cases_ok);
        }
        Ok(cases_c)
    }

    /// The C case of one arm of a `match` on the variant type
    /// `variant_name`: its body's lines, storing the arm's value in
    /// `res_var`, then `break;`.
    /// The lines of a `match` arm's body, the last storing the arm's value in
    /// `res_var`, then `break;`; in a scope of its own.
    fn emit_arm_lines(&mut self, arm: &crate::parser::statement::MatchArm, res_var: &String) -> (r: Result<
        Vec<String>,
        CodegenError,
    >)
        requires
            old(self).wf(),
            expr_wf(arm.body),
            expr_cg(arm.body),
        ensures
            final(self).grows_from(old(self)),
            r matches Ok(v) ==> v.len() >= 1 && v@.last()@ == "    break;"@,
        decreases expr_size(arm.body), 4int,
    {
        proof {
            reveal_strlit("    break;");
        }
        self.checker.env.push();
        let mut arm_lines: Vec<String> = Vec::new();
        match &arm.body {
            Expression::Block { body, .. } => {
                proof {
                    lemma_stmts_wf(body@);
                    lemma_stmts_cg(body@);
                    lemma_stmts_size(body@);
                }
                if body.len() > 0 {
                    let last = body.len() - 1;
                    let mut k: usize = 0;
                    while k < last
                        invariant
                            k <= last < body.len(),
                            self.grows_from(old(self)),
                            forall|x: int| 0 <= x < body.len() ==> stmt_wf(#[trigger] body@[x]),
                            forall|x: int| 0 <= x < body.len() ==> stmt_cg(#[trigger] body@[x]),
                            forall|x: int| 0 <= x < body.len() ==> stmt_size(#[trigger] body@[x]) <= stmts_size(body@),
                            stmts_size(body@) < expr_size(arm.body),
                        decreases last - k,
                    {
                        let st = self.emit_statement(&body[k])?;
                        arm_lines.push(concat(&vec!["    ", st.as_str()]));
                        k = k + 1;
                    }
                    match &body[last] {
                        Statement::Expression { expression, .. } => {
                            let val = self.emit_expression(expression)?;
                            arm_lines.push(concat(&vec!["    ", res_var.as_str(), " = ", val.as_str(), ";"]));
                        },
                        _ => {
                            let st = self.emit_statement(&body[last])?;
                            arm_lines.push(concat(&vec!["    ", st.as_str()]));
                        },
                    }
                }
            },
            _ => {
                let val = self.emit_expression(&arm.body)?;
                arm_lines.push(concat(&vec!["   ", res_var.as_str(), " = ", val.as_str(), ";"]));
            },
        }
        self.checker.env.pop();
        arm_lines.push(string_from("    break;"));
        Ok(arm_lines)
    }

    #[verifier::spinoff_prover]
    #[verifier::rlimit(40)]
    fn emit_match_arm(
        &mut self,
        arm: &crate::parser::statement::MatchArm,
        variant_name: &String,
        res_var: &String,
    ) -> (r: Result<String, CodegenError>)
        requires
            old(self).wf(),
            expr_wf(arm.pattern),
            expr_wf(arm.body),
            crate::parser::shape::pattern_shape_ok(arm.pattern),
            expr_cg(arm.pattern),
            expr_cg(arm.body),
        ensures
            final(self).grows_from(old(self)),
            r matches Ok(t) ==> is_case_text(variant_name@, arm.pattern, t@),
        decreases expr_size(arm.pattern) + expr_size(arm.body), 5int,
    {
        let default_name = string_from("default");
        let wildcard = string_from("_");
        proof {
            reveal_strlit("default");
            reveal_strlit("_");
            reveal_strlit("VIO_TAG_");
            reveal_strlit("    break;");
            reveal_strlit("default: {\n");
            reveal_strlit(": {\n");
            reveal_strlit("case ");
            reveal_strlit("case VIO_TAG_");
            reveal_strlit("    break;\n}");
            reveal_strlit("\n}");
        }
        let case_name: String = match &arm.pattern {
            Expression::Identifier { name, .. } => name.clone(),
            Expression::Field { name, .. } => name.clone(),
            Expression::Call { function, .. } => match &**function {
                Expression::Identifier { name, .. } => name.clone(),
                _ => {
                    return Err(CodegenError::Unsupported(string_from("Pattern shape in codegen")));
                },
            },
            Expression::MethodCall { name, .. } => name.clone(),
            _ => {
                return Err(CodegenError::Unsupported(string_from("Pattern shape in codegen")));
            },
        };
        proof {
            assert(case_name@ == pattern_name(arm.pattern));
        }
        let tag_name = if case_name != wildcard {
            concat(&vec!["VIO_TAG_", variant_name.as_str(), "_", case_name.as_str()])
        } else {
            default_name.clone()
        };
        let arm_lines = match self.emit_arm_lines(arm, res_var) {
            Ok(l) => l,
            Err(e) => {
                return Err(e);
            },
        };
        let arm_text = join_strings(&arm_lines, "\n");
        let ghost ls = texts(arm_lines@);
        proof {
            assert(ls.len() >= 1 && ls.last() == "    break;"@);
            if ls.len() == 1 {
                assert(arm_text@ == "    break;"@);
            } else {
                assert(arm_text@ == joined(ls.drop_last(), "\n"@) + "\n"@ + ls.last());
            }
            if case_name@ != "_"@ {
                assert(tag_name@ == "VIO_TAG_"@ + variant_name@ + "_"@ + case_name@);
                assert(tag_name@[0] == "VIO_TAG_"@[0]);
                assert(tag_name@ != default_name@);
            }
        }
        let res = if tag_name != default_name {
            concat(&vec!["case ", tag_name.as_str(), ": {\n", arm_text.as_str(), "\n}"])
        } else {
            concat(&vec![tag_name.as_str(), ": {\n", arm_text.as_str(), "\n}"])
        };
        proof {
            reveal(is_case_text);
            let b: Seq<char> = if ls.len() == 1 {
                Seq::empty()
            } else {
                joined(ls.drop_last(), "\n"@) + "\n"@
            };
            assert(arm_text@ =~= b + "    break;"@);
            if case_name@ == "_"@ {
                assert(tag_name@ == "default"@);
                assert(res@ =~= "default: {\n"@ + b + "    break;\n}"@);
            } else {
                assert(res@ =~= "case VIO_TAG_"@ + variant_name@ + "_"@ + case_name@ + ": {\n"@ + b + "    break;\n}"@);
            }
            assert(res@ =~= case_text(variant_name@, arm.pattern, b));
        }
        Ok(res)
    }

    /// The C code of a statement.
    pub fn emit_statement(&mut self, stmt: &Statement) -> (r: Result<String, CodegenError>)
        requires
            old(self).wf(),
            stmt_wf(*stmt),
            stmt_cg(*stmt),
        ensures
            final(self).grows_from(old(self)),
            stmt is Break ==> (r matches Ok(s) && s@ == "break;"@),
            stmt is Continue ==> (r matches Ok(s) && s@ == "continue;"@),
            *stmt matches Statement::Let { name, value, .. } ==> (plain_expr(value) && expr_no_extern(value) && fn_free(
                ty_of(old(self).checker.typing(), value, None),
                ) ==> text_of(r) == binding_text(old(self).checker.typing(), old(self).externs(), name@, value)),
            *stmt matches Statement::Var { name, value, .. } ==> (plain_expr(value) && expr_no_extern(value) && fn_free(
                ty_of(old(self).checker.typing(), value, None),
                ) ==> text_of(r) == binding_text(old(self).checker.typing(), old(self).externs(), name@, value)),
            *stmt matches Statement::Const { name, value, .. } ==> (plain_expr(value) && expr_no_extern(value)
                && fn_free(ty_of(old(self).checker.typing(), value, None)) ==> text_of(r) == binding_text(old(self).checker.typing(), old(self).externs(), name@, value)),
            *stmt matches Statement::Return { value: None, .. } ==> text_of(r) == Ok::<Seq<char>, CgErr>(
                "return;"@,
                ),
            *stmt matches Statement::Return { value: Some(v), .. } ==> (plain_expr(v) && expr_no_extern(v)
                ==> text_of(r) == match c_expr(old(self).checker.typing(), old(self).externs(), v) {
                Ok(t) => Ok("return "@ + t + ";"@),
                Err(m) => Err(m),
                }),
            *stmt matches Statement::Expression { expression, .. } ==> (plain_expr(expression) && expr_no_extern(
                expression,
                ) ==> text_of(r) == match c_expr(old(self).checker.typing(), old(self).externs(), expression) {
                Ok(t) => Ok(t + ";"@),
                Err(m) => Err(m),
                }),
            plain_stmt(old(self).checker.typing(), *stmt) ==> text_of(r) == c_stmt(
                old(self).checker.typing(),
                old(self).externs(),
                *stmt,
            ),
            plain_stmt(old(self).checker.typing(), *stmt) && r is Ok ==> final(self).checker.typing() == after_stmt(
                old(self).checker.typing(),
                *stmt,
            ),
            plain_stmt(old(self).checker.typing(), *stmt) ==> final(self).keeps_output(old(self)),
            *stmt matches Statement::If(i) ==> (plain_if(old(self).checker.typing(), i) ==> text_of(r) == if_text(
                old(self).checker.typing(),
                old(self).externs(),
                i,
            )),
            (stmt is While || stmt is ForCounter || stmt is ForRange) ==> (plain_loop(old(self).checker.typing(), *stmt)
                ==> text_of(r) == loop_text(old(self).checker.typing(), old(self).externs(), *stmt)),
            *stmt matches Statement::Struct { name, fields, .. } ==> (fn_free_params(fields@) ==> text_of(r) == Ok::<
                Seq<char>,
                CgErr,
            >(struct_text(name@, fields@))),
            *stmt matches Statement::ExternFunc { name, params, return_type, .. } ==> (fn_free_params(params@)
                && fn_free(resolve_ret(return_type)) ==> text_of(r) == Ok::<Seq<char>, CgErr>(
                extern_text(name@, params@, return_type),
            )),
            *stmt matches Statement::Func { name, .. } ==> (plain_function(old(self).checker.typing(), *stmt)
                ==> text_of(r) == function_text(
                old(self).checker.typing(),
                old(self).externs(),
                *stmt,
                fn_c_name(old(self).externs(), name@),
            )),
            *stmt matches Statement::Extend { target, methods, .. } ==> (plain_methods(
                old(self).checker.typing(),
                methods@,
            ) ==> text_of(r) == match extend_lines(
                old(self).checker.typing(),
                old(self).externs(),
                extend_target_name(target),
                methods@,
            ) {
                Ok(ls) => Ok(joined(ls, "\n"@)),
                Err(m) => Err(m),
            }),
        decreases stmt_size(*stmt), 3int,
    {
        match stmt {
            Statement::Let { name, value, span } => self.emit_binding(name, value, *span, false),
            Statement::Var { name, value, span } => self.emit_binding(name, value, *span, false),
            Statement::Const { name, value, span } => self.emit_binding(name, value, *span, true),
            Statement::If(..) => self.emit_if(stmt),
            Statement::Return { value, .. } => {
                proof {
                    reveal_strlit("return");
                    reveal_strlit("return;");
                    reveal_strlit("return ");
                    reveal_strlit(";");
                }
                let mut res = string_from("return");
                if let Some(e) = value {
                    let v = self.emit_expression(e)?;
                    string_push(&mut res, ' ');
                    string_push_str(&mut res, v.as_str());
                    string_push(&mut res, ';');
                    assert(res@ =~= "return "@ + v@ + ";"@);
                    return Ok(res);
                }
                string_push(&mut res, ';');
                assert(res@ =~= "return;"@);
                Ok(res)
            },
            Statement::ExternFunc { .. } => self.emit_extern(stmt),
            Statement::Expression { expression, .. } => {
                proof {
                    reveal_strlit(";");
                }
                let e = self.emit_expression(expression)?;
                Ok(concat(&vec![e.as_str(), ";"]))
            },
            Statement::While { .. } | Statement::ForCounter { .. } | Statement::ForRange { .. } => self.emit_for(stmt),
            Statement::Break { .. } => {
                proof {
                    reveal_strlit("break;");
                }
                Ok(string_from("break;"))
            },
            Statement::Continue { .. } => {
                proof {
                    reveal_strlit("continue;");
                }
                Ok(string_from("continue;"))
            },
            Statement::Func { .. } => self.emit_function(stmt),
            Statement::Struct { .. } => self.emit_struct(stmt),
            Statement::Extend { .. } => self.emit_extend(stmt),
        }
    }

    /// `if (c) { .. } else if (c) { .. } else { .. }`, in a scope of its own.
    #[verifier::spinoff_prover]
    #[verifier::rlimit(80)]
    fn emit_if(&mut self, stmt: &Statement) -> (r: Result<String, CodegenError>)
        requires
            old(self).wf(),
            stmt_wf(*stmt),
            stmt_cg(*stmt),
            stmt is If,
        ensures
            final(self).grows_from(old(self)),
            *stmt matches Statement::If(i) ==> (plain_if(old(self).checker.typing(), i) ==> text_of(r) == if_text(
                old(self).checker.typing(),
                old(self).externs(),
                i,
            )),
        decreases stmt_size(*stmt), 2int,
    {
        let if_stmt = match stmt {
            Statement::If(i) => i,
            _ => {
                return Err(CodegenError::Unexpected(string_from("not an if statement")));
            },
        };
        proof {
            crate::parser::shape::lemma_else_ifs_wf(if_stmt.else_if@);
            crate::parser::shape::lemma_else_ifs_cg(if_stmt.else_if@);
            crate::parser::shape::lemma_else_ifs_size(if_stmt.else_if@);
        }
        let ghost g = self.checker.typing();
        let ghost x = self.externs();
        let ghost pi = plain_if(g, *if_stmt);
        let ghost g1 = with_scope(g);
        let ghost t = typing_after(g1, if_stmt.then_block@);
        self.checker.env.push();
        proof {
            assert(self.checker.typing() == g1);
        }
        let cond = match self.emit_expression(&if_stmt.condition) {
            Ok(c) => c,
            Err(e) => {
                return Err(e);
            },
        };
        let first_block = match self.emit_block(&if_stmt.then_block) {
            Ok(b) => b,
            Err(e) => {
                return Err(e);
            },
        };
        let mut res = concat(&vec!["if (", cond.as_str(), ") {\n", first_block.as_str(), "\n}\n"]);
        let branches = match self.emit_else_ifs(&if_stmt.else_if) {
            Ok(b) => b,
            Err(e) => {
                return Err(e);
            },
        };
        string_push_str(&mut res, branches.as_str());
        if if_stmt.else_block.len() > 0 {
            let e = match self.emit_block(&if_stmt.else_block) {
                Ok(e) => e,
                Err(e) => {
                    return Err(e);
                },
            };
            let part = concat(&vec!["else {\n", e.as_str(), "\n}\n"]);
            string_push_str(&mut res, part.as_str());
            proof {
                if pi {
                    assert(res@ =~= "if ("@ + cond@ + ") {\n"@ + first_block@ + "\n}\n"@ + branches@ + "else {\n"@
                        + e@ + "\n}\n"@);
                }
            }
        } else {
            proof {
                if pi {
                    assert(res@ =~= "if ("@ + cond@ + ") {\n"@ + first_block@ + "\n}\n"@ + branches@);
                }
            }
        }
        self.checker.env.pop();
        Ok(res)
    }

    /// `else if (c) { .. }` for each branch, in order.
    #[verifier::spinoff_prover]
    #[verifier::rlimit(80)]
    fn emit_else_ifs(&mut self, elifs: &Vec<crate::parser::statement::ElseIf>) -> (r: Result<String, CodegenError>)
        requires
            old(self).wf(),
            forall|k: int| 0 <= k < elifs.len() ==> expr_wf((#[trigger] elifs@[k]).condition) && stmts_wf(
                elifs@[k].block@,
            ),
            forall|k: int| 0 <= k < elifs.len() ==> expr_cg((#[trigger] elifs@[k]).condition) && stmts_cg(
                elifs@[k].block@,
            ),
        ensures
            final(self).grows_from(old(self)),
            plain_elifs(old(self).checker.typing(), elifs@) ==> text_of(r) == elifs_text(
                old(self).checker.typing(),
                old(self).externs(),
                elifs@,
            ),
            plain_elifs(old(self).checker.typing(), elifs@) && r is Ok ==> final(self).checker.typing() == elifs_after(
                old(self).checker.typing(),
                elifs@,
            ),
        decreases crate::parser::shape::else_ifs_size(elifs@), 6int,
    {
        proof {
            crate::parser::shape::lemma_else_ifs_size(elifs@);
        }
        let ghost t = self.checker.typing();
        let ghost x = self.externs();
        let ghost pe = plain_elifs(t, elifs@);
        let mut res = String::new();
        proof {
            assert(elifs@.take(0) =~= Seq::<crate::parser::statement::ElseIf>::empty());
        }
        let mut i: usize = 0;
        while i < elifs.len()
            invariant
                i <= elifs.len(),
                self.grows_from(old(self)),
                forall|k: int| 0 <= k < elifs.len() ==> expr_wf((#[trigger] elifs@[k]).condition) && stmts_wf(
                    elifs@[k].block@,
                ),
                forall|k: int| 0 <= k < elifs.len() ==> expr_cg((#[trigger] elifs@[k]).condition) && stmts_cg(
                    elifs@[k].block@,
                ),
                forall|k: int| 0 <= k < elifs.len() ==> expr_size((#[trigger] elifs@[k]).condition) + stmts_size(
                    elifs@[k].block@,
                ) <= crate::parser::shape::else_ifs_size(elifs@),
                t == old(self).checker.typing(),
                x == old(self).externs(),
                pe == plain_elifs(t, elifs@),
                pe ==> self.checker.typing() == elifs_after(t, elifs@.take(i as int)),
                pe ==> elifs_text(t, x, elifs@.take(i as int)) == Ok::<Seq<char>, CgErr>(res@),
            decreases elifs.len() - i,
        {
            proof {
                if pe {
                    lemma_plain_elifs(t, elifs@, i + 1);
                    assert(elifs@.take(i + 1).drop_last() =~= elifs@.take(i as int));
                    assert(elifs@.take(i + 1).last() == elifs@[i as int]);
                }
            }
            let c = match self.emit_expression(&elifs[i].condition) {
                Ok(c) => c,
                Err(e) => {
                    proof {
                        if pe {
                            lemma_elifs_fail(t, x, elifs@, i as int, res@);
                        }
                    }
                    return Err(e);
                },
            };
            let b = match self.emit_block(&elifs[i].block) {
                Ok(b) => b,
                Err(e) => {
                    proof {
                        if pe {
                            lemma_elifs_fail(t, x, elifs@, i as int, res@);
                        }
                    }
                    return Err(e);
                },
            };
            let part = concat(&vec!["else if (", c.as_str(), ") {\n", b.as_str(), "\n}\n"]);
            let ghost pre = res@;
            string_push_str(&mut res, part.as_str());
            proof {
                if pe {
                    lemma_elifs_step(t, x, elifs@, i as int, pre, c@, b@);
                }
            }
            i = i + 1;
        }
        proof {
            assert(elifs@.take(elifs.len() as int) =~= elifs@);
        }
        Ok(res)
    }

    /// `extern T name(params);` for an extern function.
    fn emit_extern(&mut self, stmt: &Statement) -> (r: Result<String, CodegenError>)
        requires
            old(self).wf(),
            stmt_wf(*stmt),
            stmt is ExternFunc,
        ensures
            final(self).grows_from(old(self)),
            *stmt matches Statement::ExternFunc { name, params, return_type, .. } ==> (fn_free_params(params@)
                && fn_free(resolve_ret(return_type)) ==> text_of(r) == Ok::<Seq<char>, CgErr>(
                extern_text(name@, params@, return_type),
            )),
    {
        proof {
            reveal(fn_free_params);
            reveal(extern_text);
        }
        let (name, params, return_type) = match stmt {
            Statement::ExternFunc { name, params, return_type, .. } => (name, params, return_type),
            _ => {
                return Err(CodegenError::Unexpected(string_from("not an extern function")));
            },
        };
        proof {
            lemma_params_wf(params@);
        }
        let ret = self.checker.resolve_return(return_type);
        let mut parts: Vec<String> = Vec::new();
        let mut i: usize = 0;
        while i < params.len()
            invariant
                i <= params.len(),
                self.grows_from(old(self)),
                forall|k: int| 0 <= k < params.len() ==> type_wf(#[trigger] params@[k].param_type),
                self.checker == old(self).checker,
                fn_free_params(params@) ==> texts(parts@) == Seq::new(
                    i as nat,
                    |k: int| extern_param_text(params@[k]),
                ),
            decreases params.len() - i,
        {
            let ty = self.checker.resolve(&params[i].param_type);
            let ct = self.c_type(&ty);
            let ghost before = parts@;
            parts.push(concat(&vec![ct.as_str(), " ", params[i].name.as_str()]));
            proof {
                if fn_free_params(params@) {
                    reveal(fn_free_params);
                    assert(fn_free(resolve_ty(params@[i as int].param_type)));
                    assert(parts@.last()@ == extern_param_text(params@[i as int]));
                    crate::text::lemma_texts_push(before, parts@.last());
                    assert(parts@ == before.push(parts@.last()));
                    assert(texts(parts@) =~= Seq::new((i + 1) as nat, |k: int| extern_param_text(params@[k])));
                }
            }
            i = i + 1;
        }
        let parameters = join_strings(&parts, ", ");
        let ret_c = self.c_type(&ret);
        let res = concat(&vec!["extern ", ret_c.as_str(), " ", name.as_str(), "(", parameters.as_str(), ");"]);
        proof {
            if fn_free_params(params@) && fn_free(resolve_ret(*return_type)) {
                assert(texts(parts@) =~= Seq::new(params.len() as nat, |k: int| extern_param_text(params@[k])));
                assert(res@ =~= extern_text(name@, params@, *return_type));
            }
        }
        Ok(res)
    }

    /// The methods of `extend T { .. }`, each a C function `vio_user_T_m`.
    fn emit_extend(&mut self, stmt: &Statement) -> (r: Result<String, CodegenError>)
        requires
            old(self).wf(),
            stmt_wf(*stmt),
            stmt_cg(*stmt),
            stmt is Extend,
        ensures
            final(self).grows_from(old(self)),
            *stmt matches Statement::Extend { target, methods, .. } ==> (plain_methods(
                old(self).checker.typing(),
                methods@,
            ) ==> text_of(r) == match extend_lines(
                old(self).checker.typing(),
                old(self).externs(),
                extend_target_name(target),
                methods@,
            ) {
                Ok(ls) => Ok(joined(ls, "\n"@)),
                Err(m) => Err(m),
            }),
        decreases stmt_size(*stmt), 2int,
    {
        let (target, methods) = match stmt {
            Statement::Extend { target, methods, .. } => (target, methods),
            _ => {
                return Err(CodegenError::Unexpected(string_from("not an extend block")));
            },
        };
        proof {
            lemma_stmts_wf(methods@);
            lemma_stmts_cg(methods@);
            lemma_stmts_size(methods@);
            reveal_strlit("vio_user_");
            reveal_strlit("_");
        }
        let ghost g = self.checker.typing();
        let ghost x = self.externs();
        let ghost pm = plain_methods(g, methods@);
        let target_ty = self.checker.resolve(target);
        let target_name = match &target_ty {
            Ty::Struct(name) => name.clone(),
            _ => target_ty.debug(),
        };
        let ghost tname = extend_target_name(*target);
        proof {
            assert(target_name@ == tname);
            assert(methods@.take(0) =~= Seq::<Statement>::empty());
        }
        let mut lines: Vec<String> = Vec::new();
        proof {
            assert(texts(lines@) =~= Seq::<Seq<char>>::empty());
        }
        let mut i: usize = 0;
        while i < methods.len()
            invariant
                i <= methods.len(),
                self.grows_from(old(self)),
                forall|k: int| 0 <= k < methods.len() ==> stmt_wf(#[trigger] methods@[k]),
                forall|k: int| 0 <= k < methods.len() ==> stmt_cg(#[trigger] methods@[k]),
                forall|k: int| 0 <= k < methods.len() ==> stmt_size(#[trigger] methods@[k]) <= stmts_size(methods@),
                stmts_size(methods@) < stmt_size(*stmt),
                target_name@ == tname,
                x == old(self).externs(),
                g == old(self).checker.typing(),
                tname == extend_target_name(*target),
                *stmt matches Statement::Extend { target: t2, methods: m2, .. } && t2 == *target && m2@ == methods@,
                pm == plain_methods(g, methods@),
                pm ==> self.checker.typing() == g,
                pm ==> extend_lines(g, x, tname, methods@.take(i as int)) == Ok::<Seq<Seq<char>>, CgErr>(texts(lines@)),
            decreases methods.len() - i,
        {
            proof {
                assert(methods@.take(i + 1).drop_last() =~= methods@.take(i as int));
                assert(methods@.take(i + 1).last() == methods@[i as int]);
            }
            if let Statement::Func { name, .. } = &methods[i] {
                let c_name = concat(&vec!["vio_user_", target_name.as_str(), "_", name.as_str()]);
                proof {
                    assert(c_name@ == "vio_user_"@ + tname + "_"@ + name@);
                    if pm {
                        assert(plain_function(g, methods@[i as int]));
                    }
                }
                let f = match self.emit_function_custom(&methods[i], c_name.as_str()) {
                    Ok(f) => f,
                    Err(e) => {
                        proof {
                            if pm {
                                assert(function_text(g, x, methods@[i as int], c_name@) == Err::<Seq<char>, CgErr>(e@));
                                assert(extend_lines(g, x, tname, methods@.take(i + 1)) == Err::<Seq<Seq<char>>, CgErr>(
                                    e@,
                                ));
                                lemma_extend_lines_err(g, x, tname, methods@, i + 1);
                            }
                        }
                        return Err(e);
                    },
                };
                let ghost before = lines@;
                lines.push(f);
                proof {
                    crate::text::lemma_texts_push(before, f);
                }
            }
            i = i + 1;
        }
        proof {
            assert(methods@.take(methods.len() as int) =~= methods@);
        }
        Ok(join_strings(&lines, "\n"))
    }

    /// `T name = value;` for a `let`, `var` or `const` binding, which is
    /// bound in the current scope.
    fn emit_binding(&mut self, name: &String, value: &Expression, span: crate::lexer::span::Span, is_const: bool) -> (r:
        Result<String, CodegenError>)
        requires
            old(self).wf(),
            expr_wf(*value),
            expr_cg(*value),
        ensures
            final(self).grows_from(old(self)),
            plain_expr(*value) && expr_no_extern(*value) && fn_free(ty_of(old(self).checker.typing(), *value, None))
                ==> text_of(r) == binding_text(old(self).checker.typing(), old(self).externs(), name@, *value),
            plain_expr(*value) && expr_no_extern(*value) && fn_free(ty_of(old(self).checker.typing(), *value, None))
                && r is Ok ==> final(self).checker.typing() == (Typing {
                scopes: bound(
                    old(self).checker.env.scope_maps(),
                    name@,
                    EntityView {
                        ty: ty_of(old(self).checker.typing(), *value, None),
                        kind: if is_const {
                            BindingKind::Const
                        } else {
                            BindingKind::Var
                        },
                        span,
                    },
                ),
                ..old(self).checker.typing()
            }),
            plain_expr(*value) && expr_no_extern(*value) && fn_free(ty_of(old(self).checker.typing(), *value, None))
                ==> final(self).keeps_output(old(self)),
        decreases expr_size(*value), 3int,
    {
        proof {
            reveal_strlit(" ");
            reveal_strlit(" = ");
            reveal_strlit(";");
        }
        let val_str = self.emit_expression(value)?;
        let ty = self.checker.infer(value, None);
        let kind = if is_const {
            BindingKind::Const
        } else {
            BindingKind::Var
        };
        let ct = self.c_type(&ty);
        self.checker.defined(name.clone(), ty, kind, span);
        Ok(concat(&vec![ct.as_str(), " ", name.as_str(), " = ", val_str.as_str(), ";"]))
    }

    /// The C loop of a `while`, counter `for` or range `for` statement.
    pub fn emit_for(&mut self, stmt: &Statement) -> (r: Result<String, CodegenError>)
        requires
            old(self).wf(),
            stmt_wf(*stmt),
            stmt_cg(*stmt),
            stmt is While || stmt is ForCounter || stmt is ForRange,
        ensures
            final(self).grows_from(old(self)),
            plain_loop(old(self).checker.typing(), *stmt) ==> text_of(r) == loop_text(
                old(self).checker.typing(),
                old(self).externs(),
                *stmt,
            ),
        decreases stmt_size(*stmt), 2int,
    {
        match stmt {
            Statement::While { .. } => self.emit_while(stmt),
            Statement::ForCounter { .. } => self.emit_counter_loop(stmt),
            Statement::ForRange { .. } => self.emit_range_loop(stmt),
            _ => {
                self.checker.env.push();
                Err(CodegenError::Unexpected(string_from("not a loop")))
            },
        }
    }

    /// `while (c) { .. }`, in a scope of its own.
    fn emit_while(&mut self, stmt: &Statement) -> (r: Result<String, CodegenError>)
        requires
            old(self).wf(),
            stmt_wf(*stmt),
            stmt_cg(*stmt),
            stmt is While,
        ensures
            final(self).grows_from(old(self)),
            plain_loop(old(self).checker.typing(), *stmt) ==> text_of(r) == loop_text(
                old(self).checker.typing(),
                old(self).externs(),
                *stmt,
            ),
        decreases stmt_size(*stmt), 1int,
    {
        let ghost g = self.checker.typing();
        let ghost x = self.externs();
        let ghost pl = plain_loop(g, *stmt);
        let ghost g1 = with_scope(g);
        self.checker.env.push();
        proof {
            assert(self.checker.typing() == g1);
        }
        match stmt {
            Statement::While { condition, body, .. } => {
                let cond = match self.emit_expression(condition) {
                    Ok(c) => c,
                    Err(e) => {
                        return Err(e);
                    },
                };
                let b = match self.emit_block(body) {
                    Ok(b) => b,
                    Err(e) => {
                        return Err(e);
                    },
                };
                self.checker.env.pop();
                Ok(concat(&vec!["while (", cond.as_str(), ") {\n", b.as_str(), "\n}"]))
            },
            _ => Err(CodegenError::Unexpected(string_from("not a loop"))),
        }
    }

    /// `for (init cond; post) { .. }`, in a scope of its own.
    fn emit_counter_loop(&mut self, stmt: &Statement) -> (r: Result<String, CodegenError>)
        requires
            old(self).wf(),
            stmt_wf(*stmt),
            stmt_cg(*stmt),
            stmt is ForCounter,
        ensures
            final(self).grows_from(old(self)),
            plain_loop(old(self).checker.typing(), *stmt) ==> text_of(r) == loop_text(
                old(self).checker.typing(),
                old(self).externs(),
                *stmt,
            ),
        decreases stmt_size(*stmt), 1int,
    {
        let ghost g = self.checker.typing();
        let ghost x = self.externs();
        let ghost pl = plain_loop(g, *stmt);
        let ghost g1 = with_scope(g);
        self.checker.env.push();
        proof {
            assert(self.checker.typing() == g1);
        }
        match stmt {
            Statement::ForCounter { init, condition, post, body, .. } => {
                let initial = match self.emit_statement(init) {
                    Ok(i) => i,
                    Err(e) => {
                        return Err(e);
                    },
                };
                let cond = match self.emit_expression(condition) {
                    Ok(c) => c,
                    Err(e) => {
                        return Err(e);
                    },
                };
                let postfix = match self.emit_expression(post) {
                    Ok(p) => p,
                    Err(e) => {
                        return Err(e);
                    },
                };
                let b = match self.emit_block(body) {
                    Ok(b) => b,
                    Err(e) => {
                        return Err(e);
                    },
                };
                self.checker.env.pop();
                let head = concat(&vec!["for (", initial.as_str(), " ", cond.as_str(), "; ", postfix.as_str(), ") {\n"]);
                let res = concat(&vec![head.as_str(), b.as_str(), "\n}"]);
                proof {
                    if pl {
                        assert(res@ =~= "for ("@ + initial@ + " "@ + cond@ + "; "@ + postfix@ + ") {\n"@ + b@ + "\n}"@);
                    }
                }
                Ok(res)
            },
            _ => Err(CodegenError::Unexpected(string_from("not a loop"))),
        }
    }

    /// `for (int64_t v = a; v < b; v++) { .. }` for a loop over a range, in a
    /// scope of its own where the variable is bound.
    #[verifier::spinoff_prover]
    #[verifier::rlimit(30)]
    fn emit_range_loop(&mut self, stmt: &Statement) -> (r: Result<String, CodegenError>)
        requires
            old(self).wf(),
            stmt_wf(*stmt),
            stmt_cg(*stmt),
            stmt is ForRange,
        ensures
            final(self).grows_from(old(self)),
            plain_loop(old(self).checker.typing(), *stmt) ==> text_of(r) == loop_text(
                old(self).checker.typing(),
                old(self).externs(),
                *stmt,
            ),
        decreases stmt_size(*stmt), 1int,
    {
        let ghost g = self.checker.typing();
        let ghost x = self.externs();
        let ghost pl = plain_loop(g, *stmt);
        let ghost g1 = with_scope(g);
        self.checker.env.push();
        proof {
            assert(self.checker.typing() == g1);
        }
        match stmt {
            Statement::ForRange { variable, iterable, body, span } => {
                proof {
                    assert(stmt_size(*stmt) == 1 + expr_size(*iterable) + stmts_size(body@));
                }
                let (start, end, cmp) = match self.emit_range_bounds(iterable) {
                    Ok(b) => b,
                    Err(e) => {
                        return Err(e);
                    },
                };
                self.bind_loop_variable(variable, *span);
                let body_str = match self.emit_block(body) {
                    Ok(b) => b,
                    Err(e) => {
                        return Err(e);
                    },
                };
                self.checker.env.pop();
                let res = range_loop_line(variable.as_str(), start.as_str(), cmp.as_str(), end.as_str(), body_str.as_str());
                Ok(res)
            },
            _ => Err(CodegenError::Unexpected(string_from("not a loop"))),
        }
    }

    /// Binds a range loop's variable, as an `int`, in the innermost scope.
    fn bind_loop_variable(&mut self, variable: &String, span: crate::lexer::span::Span)
        requires
            old(self).wf(),
        ensures
            final(self).grows_from(old(self)),
            final(self).checker.typing() == range_var_typing(old(self).checker.typing(), variable@, span),
    {
        self.checker.defined(variable.clone(), Ty::Int, BindingKind::Var, span);
    }

    /// The start and end texts of a loop's range and its comparison.
    fn emit_range_bounds(&mut self, iterable: &Expression) -> (r: Result<(String, String, String), CodegenError>)
        requires
            old(self).wf(),
            expr_wf(*iterable),
            expr_cg(*iterable),
        ensures
            final(self).grows_from(old(self)),
            plain_range(*iterable) ==> match r {
                Ok((a, z, c)) => range_bounds(old(self).checker.typing(), old(self).externs(), *iterable) == Ok::<
                    (Seq<char>, Seq<char>, Seq<char>),
                    CgErr,
                >((a@, z@, c@)) && final(self).checker.typing() == old(self).checker.typing() && final(self).externs()
                    == old(self).externs(),
                Err(e) => range_bounds(old(self).checker.typing(), old(self).externs(), *iterable) == Err::<
                    (Seq<char>, Seq<char>, Seq<char>),
                    CgErr,
                >(e@),
            },
        decreases expr_size(*iterable), 3int,
    {
        proof {
            reveal_strlit("0");
            reveal_strlit("<=");
            reveal_strlit("<");
        }
        match iterable {
            Expression::Range { start, end, range_kind, .. } => {
                let s = match start {
                    Some(st) => match self.emit_expression(st) {
                        Ok(t) => t,
                        Err(e) => {
                            return Err(e);
                        },
                    },
                    None => string_from("0"),
                };
                let e = match end {
                    Some(en) => match self.emit_expression(en) {
                        Ok(t) => t,
                        Err(e) => {
                            return Err(e);
                        },
                    },
                    None => {
                        return Err(CodegenError::Unsupported(string_from("Open ranges")));
                    },
                };
                let c = if matches!(range_kind, RangeKind::Inclusive) {
                    string_from("<=")
                } else {
                    string_from("<")
                };
                Ok((s, e, c))
            },
            _ => Err(CodegenError::Unsupported(string_from("For-loop expects a range"))),
        }
    }

    /// A C function definition for a function declaration, named `main`,
    /// by its own `vio_...` or extern name, or `vio_user_name`.
    pub fn emit_function(&mut self, stmt: &Statement) -> (r: Result<String, CodegenError>)
        requires
            old(self).wf(),
            stmt_wf(*stmt),
            stmt_cg(*stmt),
        ensures
            final(self).grows_from(old(self)),
            !(stmt is Func) ==> r matches Err(CodegenError::Unexpected(_)),
            *stmt matches Statement::Func { name, .. } ==> (plain_function(old(self).checker.typing(), *stmt)
                ==> text_of(r) == function_text(
                old(self).checker.typing(),
                old(self).externs(),
                *stmt,
                fn_c_name(old(self).externs(), name@),
            )),
        decreases stmt_size(*stmt), 2int,
    {
        proof {
            reveal_strlit("main");
            reveal_strlit("vio_");
            reveal_strlit("vio_user_");
        }
        if let Statement::Func { name, .. } = stmt {
            let main_name = string_from("main");
            let c_name = if *name == main_name || has_prefix(name.as_str(), "vio_") || self.is_extern(name) {
                name.clone()
            } else {
                concat(&vec!["vio_user_", name.as_str()])
            };
            self.emit_function_custom(stmt, c_name.as_str())
        } else {
            Err(CodegenError::Unexpected(string_from("not a function declaration")))
        }
    }

    /// A C function definition for a function declaration, named `c_name`.
    /// Its parameters are bound in a scope of their own; a parameter taken
    /// by reference is a pointer.
    #[verifier::spinoff_prover]
    #[verifier::rlimit(40)]
    pub fn emit_function_custom(&mut self, stmt: &Statement, c_name: &str) -> (r: Result<String, CodegenError>)
        requires
            old(self).wf(),
            stmt_wf(*stmt),
            stmt_cg(*stmt),
        ensures
            final(self).grows_from(old(self)),
            !(stmt is Func) ==> r matches Err(CodegenError::Unexpected(_)),
            plain_function(old(self).checker.typing(), *stmt) ==> text_of(r) == function_text(
                old(self).checker.typing(),
                old(self).externs(),
                *stmt,
                c_name@,
            ),
            plain_function(old(self).checker.typing(), *stmt) && r is Ok ==> final(self).checker.typing() == old(
                self,
            ).checker.typing(),
        decreases stmt_size(*stmt), 1int,
    {
        if let Statement::Func { name, params, return_type, body, span, .. } = stmt {
            proof {
                lemma_params_wf(params@);
                reveal_strlit("main");
                reveal_strlit("int");
                reveal_strlit("void");
            }
            let ghost g = self.checker.typing();
            let ghost x = self.externs();
            let ghost pf = plain_function(g, *stmt);
            proof {
                reveal(plain_function);
            }
            let ghost params_free = forall|k: int| 0 <= k < params@.len() ==> fn_free(param_ty_view(#[trigger] params@[k]));
            self.checker.env.push();
            proof {
                assert(params@.take(0) =~= Seq::<FuncParam>::empty());
                assert(self.checker.typing() == params_bound(with_scope(g), params@.take(0), *span));
            }
            let mut i: usize = 0;
            while i < params.len()
                invariant
                    i <= params.len(),
                    self.grows_from(old(self)),
                    forall|k: int| 0 <= k < params.len() ==> type_wf(#[trigger] params@[k].param_type),
                    self.externs() == x,
                    x == old(self).externs(),
                    self.checker.typing() == params_bound(with_scope(g), params@.take(i as int), *span),
                decreases params.len() - i,
            {
                let param_ty = self.param_type(&params[i]);
                proof {
                    assert(params@.take(i + 1).drop_last() =~= params@.take(i as int));
                    assert(params@.take(i + 1).last() == params@[i as int]);
                }
                self.checker.defined(params[i].name.clone(), param_ty, params[i].kind, *span);
                i = i + 1;
            }
            proof {
                assert(params@.take(params.len() as int) =~= params@);
            }
            let ghost gp = self.checker.typing();
            let main_name = string_from("main");
            let mut ret = if *name == main_name {
                string_from("int")
            } else {
                string_from("void")
            };
            if let Some(t) = return_type {
                let ty = self.checker.resolve(t);
                ret = self.c_type(&ty);
            }
            let mut parts: Vec<String> = Vec::new();
            let mut j: usize = 0;
            while j < params.len()
                invariant
                    j <= params.len(),
                    self.grows_from(old(self)),
                    forall|k: int| 0 <= k < params.len() ==> type_wf(#[trigger] params@[k].param_type),
                    self.externs() == x,
                    self.checker.typing() == gp,
                    pf ==> params_free,
                    params_free == forall|k: int| 0 <= k < params@.len() ==> fn_free(param_ty_view(#[trigger] params@[k])),
                    pf ==> texts(parts@) == Seq::new(j as nat, |k: int| c_param_text(params@[k])),
                decreases params.len() - j,
            {
                let ty = self.param_type(&params[j]);
                let ct = self.c_type(&ty);
                let ghost before = parts@;
                parts.push(concat(&vec![ct.as_str(), " ", params[j].name.as_str()]));
                proof {
                    if pf {
                        assert(fn_free(param_ty_view(params@[j as int])));
                        assert(parts@.last()@ == c_param_text(params@[j as int]));
                        crate::text::lemma_texts_push(before, parts@.last());
                        assert(parts@ == before.push(parts@.last()));
                        assert(texts(parts@) =~= Seq::new((j + 1) as nat, |k: int| c_param_text(params@[k])));
                    }
                }
                j = j + 1;
            }
            let c_name_text = string_from(c_name);
            let parameters = if parts.len() == 0 && c_name_text == main_name {
                string_from("void")
            } else {
                join_strings(&parts, ", ")
            };
            let body_str = match self.emit_block(body) {
                Ok(b) => b,
                Err(e) => {
                    proof {
                        if pf {
                            lemma_function_text_err(g, x, *stmt, c_name@, e@);
                        }
                    }
                    return Err(e);
                },
            };
            proof {
                if pf {
                    lemma_params_bound_inner(with_scope(g), params@, *span);
                    lemma_typing_after_inner(gp, body@);
                    assert(self.checker.typing().scopes.drop_last() =~= g.scopes);
                }
            }
            self.checker.env.pop();
            proof {
                if pf {
                    assert(self.checker.typing() == g);
                }
            }
            let head = concat(&vec![ret.as_str(), " ", c_name, "(", parameters.as_str()]);
            let res = concat(&vec![head.as_str(), ") {\n", body_str.as_str(), "\n}\n"]);
            proof {
                assert(res@ =~= ret@ + " "@ + c_name@ + "("@ + parameters@ + ") {\n"@ + body_str@ + "\n}\n"@);
            }
            proof {
                if pf {
                    assert(texts(parts@) =~= Seq::new(params.len() as nat, |k: int| c_param_text(params@[k])));
                    assert(ret@ == match *return_type {
                        Some(t) => c_type_text(resolve_ty(t)),
                        None => if name@ == "main"@ {
                            "int"@
                        } else {
                            "void"@
                        },
                    });
                    assert(parameters@ == if params@.len() == 0 && c_name@ == "main"@ {
                        "void"@
                    } else {
                        joined(Seq::new(params@.len(), |i: int| c_param_text(params@[i])), ", "@)
                    });
                    lemma_function_text(g, x, *stmt, c_name@, ret@, parameters@, body_str@);
                }
            }
            Ok(res)
        } else {
            proof {
                reveal(plain_function);
            }
            Err(CodegenError::Unexpected(string_from("not a function declaration")))
        }
    }

    /// The type of a parameter: a reference to its declared type when it is
    /// taken by reference, mutable when it is a `var` parameter.
    fn param_type(&mut self, p: &FuncParam) -> (r: Ty)
        requires
            old(self).wf(),
            type_wf(p.param_type),
        ensures
            *final(self) == *old(self),
            r@ == param_ty_view(*p),
    {
        let ty = self.checker.resolve(&p.param_type);
        if p.is_ref {
            Ty::Ref { inner: Box::new(ty), is_mut: p.kind.is_mutable() }
        } else {
            ty
        }
    }

    /// A C `typedef struct` for a struct declaration.
    pub fn emit_struct(&mut self, stmt: &Statement) -> (r: Result<String, CodegenError>)
        requires
            old(self).wf(),
            stmt_wf(*stmt),
        ensures
            final(self).grows_from(old(self)),
            !(stmt is Struct) ==> r matches Err(CodegenError::Unexpected(_)),
            *stmt matches Statement::Struct { name, fields, .. } ==> (fn_free_params(fields@) ==> text_of(r) == Ok::<
                Seq<char>,
                CgErr,
            >(struct_text(name@, fields@))),
    {
        if let Statement::Struct { name, fields, span } = stmt {
            proof {
                lemma_params_wf(fields@);
                reveal(fn_free_params);
                reveal(struct_text);
            }
            self.checker.env.push();
            let mut i: usize = 0;
            while i < fields.len()
                invariant
                    i <= fields.len(),
                    self.grows_from(old(self)),
                    forall|k: int| 0 <= k < fields.len() ==> type_wf(#[trigger] fields@[k].param_type),
                decreases fields.len() - i,
            {
                let ty = self.checker.resolve(&fields[i].param_type);
                self.checker.defined(fields[i].name.clone(), ty, BindingKind::Var, *span);
                i = i + 1;
            }
            let mut parts: Vec<String> = Vec::new();
            let mut j: usize = 0;
            while j < fields.len()
                invariant
                    j <= fields.len(),
                    self.grows_from(old(self)),
                    forall|k: int| 0 <= k < fields.len() ==> type_wf(#[trigger] fields@[k].param_type),
                    fn_free_params(fields@) ==> texts(parts@) == Seq::new(
                        j as nat,
                        |k: int| field_decl_text(fields@[k]),
                    ),
                decreases fields.len() - j,
            {
                let ty = self.checker.resolve(&fields[j].param_type);
                let ct = self.c_type(&ty);
                let ghost before = parts@;
                parts.push(concat(&vec!["\t", ct.as_str(), " ", fields[j].name.as_str()]));
                proof {
                    if fn_free_params(fields@) {
                        reveal(fn_free_params);
                        assert(fn_free(resolve_ty(fields@[j as int].param_type)));
                        assert(parts@.last()@ == field_decl_text(fields@[j as int]));
                        crate::text::lemma_texts_push(before, parts@.last());
                        assert(parts@ == before.push(parts@.last()));
                        assert(texts(parts@) =~= Seq::new((j + 1) as nat, |k: int| field_decl_text(fields@[k])));
                    }
                }
                j = j + 1;
            }
            let mut c_fields = join_strings(&parts, ";\n");
            string_push_str(&mut c_fields, ";\n");
            self.checker.env.pop();
            let res = concat(&vec!["typedef struct {\n", c_fields.as_str(), "} ", name.as_str(), ";"]);
            proof {
                if fn_free_params(fields@) {
                    assert(texts(parts@) =~= Seq::new(fields.len() as nat, |k: int| field_decl_text(fields@[k])));
                    assert(res@ =~= struct_text(name@, fields@));
                }
            }
            Ok(res)
        } else {
            Err(CodegenError::Unexpected(string_from("not a struct declaration")))
        }
    }

    /// The statements of a block, each line indented by four spaces, then
    /// a release of each string bound in the block, the last bound first.
    /// Appends the indented lines of the code of `st` to `lines`, and the
    /// name it binds to `string_vars` when it binds a string.
    fn emit_block_statement(&mut self, st: &Statement, lines: &mut Vec<String>, string_vars: &mut Vec<String>) -> (r:
        Result<(), CodegenError>)
        requires
            old(self).wf(),
            stmt_wf(*st),
            stmt_cg(*st),
            forall|k: int| 0 <= k < old(lines)@.len() ==> (#[trigger] old(lines)@[k])@.take(4) == "    "@,
        ensures
            final(self).grows_from(old(self)),
            forall|k: int| 0 <= k < final(lines)@.len() ==> (#[trigger] final(lines)@[k])@.take(4) == "    "@,
            plain_stmt(old(self).checker.typing(), *st) ==> match r {
                Ok(_) => {
                    &&& c_stmt(old(self).checker.typing(), old(self).externs(), *st) is Ok
                    &&& texts(final(lines)@) == texts(old(lines)@) + indented(
                        lines_spec(c_stmt(old(self).checker.typing(), old(self).externs(), *st)->Ok_0),
                    )
                    &&& final(self).checker.typing() == after_stmt(old(self).checker.typing(), *st)
                    &&& final(self).keeps_output(old(self))
                    &&& texts(final(string_vars)@) == texts(old(string_vars)@) + string_binding_of(
                        old(self).checker.typing(),
                        *st,
                    )
                },
                Err(e) => c_stmt(old(self).checker.typing(), old(self).externs(), *st) == Err::<Seq<char>, CgErr>(e@),
            },
            plain_stmt(old(self).checker.typing(), *st) ==> final(self).keeps_output(old(self)),
        decreases stmt_size(*st), 4int,
    {
        let ghost h = self.checker.typing();
        let ghost sv_before = texts(string_vars@);
        match st {
            Statement::Let { name, value, .. } | Statement::Const { name, value, .. } | Statement::Var {
                name,
                value,
                ..
            } => {
                let ty = self.checker.infer(value, None);
                if matches!(ty, Ty::String) {
                    string_vars.push(name.clone());
                }
            },
            _ => {},
        }
        proof {
            if plain_stmt(h, *st) {
                assert(self.checker.typing() == h);
                assert(texts(string_vars@) =~= sv_before + string_binding_of(h, *st));
            }
        }
        let text = self.emit_statement(st)?;
        let st_lines = lines_of(text.as_str());
        let ghost lines_before = texts(lines@);
        proof {
            assert(texts(st_lines@).take(0) =~= Seq::<Seq<char>>::empty());
            assert(lines_before + indented(Seq::<Seq<char>>::empty()) =~= lines_before);
        }
        let mut k: usize = 0;
        while k < st_lines.len()
            invariant
                k <= st_lines.len(),
                forall|y: int| 0 <= y < lines.len() ==> (#[trigger] lines@[y])@.take(4) == "    "@,
                texts(lines@) == lines_before + indented(texts(st_lines@).take(k as int)),
            decreases st_lines.len() - k,
        {
            proof {
                reveal_strlit("    ");
            }
            let ghost pre = texts(lines@);
            let mut line = string_from("    ");
            string_push_str(&mut line, st_lines[k].as_str());
            assert(line@.take(4) =~= "    "@);
            lines.push(line);
            proof {
                assert(texts(lines@) =~= pre.push(line@));
                assert(indented(texts(st_lines@).take(k + 1)) =~= indented(texts(st_lines@).take(k as int)).push(
                    "    "@ + st_lines@[k as int]@,
                ));
                assert((lines_before + indented(texts(st_lines@).take(k as int))).push(line@) =~= lines_before
                    + indented(texts(st_lines@).take(k + 1)));
            }
            k = k + 1;
        }
        proof {
            assert(texts(st_lines@).take(st_lines.len() as int) =~= texts(st_lines@));
        }
        Ok(())
    }

    #[verifier::rlimit(40)]
    #[verifier::spinoff_prover]
    pub fn emit_block(&mut self, body: &Vec<Statement>) -> (r: Result<String, CodegenError>)
        requires
            old(self).wf(),
            stmts_wf(body@),
            stmts_cg(body@),
        ensures
            final(self).grows_from(old(self)),
            r matches Ok(s) ==> exists|lines: Seq<Seq<char>>| s@ == joined(lines, "\n"@) && forall|i: int|
                0 <= i < lines.len() ==> (#[trigger] lines[i]).take(4) == "    "@,
            plain_block(old(self).checker.typing(), body@) ==> text_of(r) == c_block(
                old(self).checker.typing(),
                old(self).externs(),
                body@,
            ),
            plain_block(old(self).checker.typing(), body@) ==> final(self).keeps_output(old(self)),
            plain_block(old(self).checker.typing(), body@) && r is Ok ==> final(self).checker.typing() == typing_after(
                old(self).checker.typing(),
                body@,
            ),
        decreases stmts_size(body@), 5int,
    {
        let ghost g = self.checker.typing();
        let ghost x = self.externs();
        let ghost pb = plain_block(g, body@);
        proof {
            lemma_stmts_wf(body@);
            lemma_stmts_cg(body@);
            lemma_stmts_size(body@);
        }
        let mut lines: Vec<String> = Vec::new();
        let mut string_vars: Vec<String> = Vec::new();
        proof {
            assert(body@.take(0) =~= Seq::<Statement>::empty());
            assert(texts(lines@) =~= Seq::<Seq<char>>::empty());
            assert(texts(string_vars@) =~= Seq::<Seq<char>>::empty());
        }
        let mut i: usize = 0;
        while i < body.len()
            invariant
                i <= body.len(),
                self.grows_from(old(self)),
                forall|k: int| 0 <= k < body.len() ==> stmt_wf(#[trigger] body@[k]),
                forall|k: int| 0 <= k < body.len() ==> stmt_cg(#[trigger] body@[k]),
                forall|k: int| 0 <= k < body.len() ==> stmt_size(#[trigger] body@[k]) <= stmts_size(body@),
                forall|k: int| 0 <= k < lines.len() ==> (#[trigger] lines@[k])@.take(4) == "    "@,
                g == old(self).checker.typing(),
                x == old(self).externs(),
                pb == plain_block(g, body@),
                pb ==> self.checker.typing() == typing_after(g, body@.take(i as int)) && self.keeps_output(old(self)),
                pb ==> c_block_lines(g, x, body@.take(i as int)) == Ok::<Seq<Seq<char>>, CgErr>(texts(lines@)),
                pb ==> string_bindings(g, body@.take(i as int)) == texts(string_vars@),
            decreases body.len() - i,
        {
            proof {
                assert(body@.take(i + 1).drop_last() == body@.take(i as int));
                assert(body@.take(i + 1).last() == body@[i as int]);
                if pb {
                    lemma_plain_block(g, body@, i as int);
                }
            }
            match self.emit_block_statement(&body[i], &mut lines, &mut string_vars) {
                Ok(()) => {},
                Err(e) => {
                    proof {
                        if pb {
                            lemma_c_block_lines_err(g, x, body@, i + 1);
                        }
                    }
                    return Err(e);
                },
            }
            i = i + 1;
        }
        proof {
            assert(body@.take(body.len() as int) == body@);
        }
        let ghost stmt_lines = texts(lines@);
        proof {
            assert(release_lines(texts(string_vars@)).take(0) =~= Seq::<Seq<char>>::empty());
            assert(stmt_lines + Seq::<Seq<char>>::empty() =~= stmt_lines);
        }
        let mut v: usize = string_vars.len();
        while v > 0
            invariant
                v <= string_vars.len(),
                forall|y: int| 0 <= y < lines.len() ==> (#[trigger] lines@[y])@.take(4) == "    "@,
                texts(lines@) == stmt_lines + release_lines(texts(string_vars@)).take(string_vars.len() - v),
                pb ==> self.checker.typing() == typing_after(g, body@),
            decreases v,
        {
            proof {
                reveal_strlit("    ");
                reveal_strlit("    vio_str_release(");
                reveal_strlit(");");
            }
            v = v - 1;
            let ghost pre = texts(lines@);
            let mut line = string_from("    vio_str_release(");
            string_push_str(&mut line, string_vars[v].as_str());
            string_push_str(&mut line, ");");
            assert(line@.take(4) =~= "    "@);
            lines.push(line);
            proof {
                let rl = release_lines(texts(string_vars@));
                let n = string_vars.len() - v;
                assert(rl[n - 1] == "    vio_str_release("@ + string_vars@[v as int]@ + ");"@);
                assert(rl.take(n) =~= rl.take(n - 1).push(rl[n - 1]));
                assert(texts(lines@) =~= pre.push(line@));
            }
        }
        proof {
            let rl = release_lines(texts(string_vars@));
            assert(rl.take(string_vars.len() as int) =~= rl);
        }
        let out = join_strings(&lines, "\n");
        proof {
            assert(texts(lines@).len() == lines.len());
            assert forall|y: int| 0 <= y < texts(lines@).len() implies (#[trigger] texts(lines@)[y]).take(4) == "    "@ by {
                assert(texts(lines@)[y] == lines@[y]@);
            }
        }
        Ok(out)
    }
}

/// The C declaration of a struct's field: a tab, its type, its name.
pub open spec fn field_decl_text(p: FuncParam) -> Seq<char> {
    "\t"@ + c_type_text(resolve_ty(p.param_type)) + " "@ + p.name@
}

/// `typedef struct { .. } name;` for a struct whose fields are `fields`.
#[verifier::opaque]
pub open spec fn struct_text(name: Seq<char>, fields: Seq<FuncParam>) -> Seq<char> {
    "typedef struct {\n"@ + joined(Seq::new(fields.len(), |i: int| field_decl_text(fields[i])), ";\n"@) + ";\n"@
        + "} "@ + name + ";"@
}

/// A parameter of an extern function in C: its type and its name.
pub open spec fn extern_param_text(p: FuncParam) -> Seq<char> {
    c_type_text(resolve_ty(p.param_type)) + " "@ + p.name@
}

/// `extern T name(params);` for an extern function.
#[verifier::opaque]
pub open spec fn extern_text(name: Seq<char>, params: Seq<FuncParam>, return_type: Option<Type>) -> Seq<char> {
    "extern "@ + c_type_text(resolve_ret(return_type)) + " "@ + name + "("@ + joined(
        Seq::new(params.len(), |i: int| extern_param_text(params[i])),
        ", "@,
    ) + ");"@
}

/// The lines begin with `pre`.
pub open spec fn lines_start_with(lines: Seq<String>, pre: Seq<Seq<char>>) -> bool {
    pre.len() <= lines.len() && forall|j: int| 0 <= j < pre.len() ==> #[trigger] lines[j]@ == pre[j]
}

/// No constant is declared among the statements.
pub open spec fn no_consts(stmts: Seq<Statement>) -> bool {
    forall|i: int| 0 <= i < stmts.len() ==> !(#[trigger] stmts[i] is Const)
}

/// The fields of every struct declared among the statements have types
/// without function types.
pub open spec fn struct_fields_fn_free(stmts: Seq<Statement>) -> bool {
    forall|i: int| 0 <= i < stmts.len() ==> (#[trigger] stmts[i] matches Statement::Struct { fields, .. } ==> fn_free_params(
        fields@,
    ))
}

/// The C definitions of the structs declared among the statements, in order.
pub open spec fn struct_texts(stmts: Seq<Statement>) -> Seq<Seq<char>>
    decreases stmts.len(),
{
    if stmts.len() == 0 {
        Seq::empty()
    } else {
        let prev = struct_texts(stmts.drop_last());
        match stmts.last() {
            Statement::Struct { name, fields, .. } => prev.push(struct_text(name@, fields@)),
            _ => prev,
        }
    }
}

/// No `extend` block is declared among the statements.
pub open spec fn no_extends(stmts: Seq<Statement>) -> bool {
    forall|i: int| 0 <= i < stmts.len() ==> !(#[trigger] stmts[i] is Extend)
}

/// The prototype of every function declared among the statements has
/// parameter and result types without function types.
pub open spec fn plain_prototypes(stmts: Seq<Statement>) -> bool {
    forall|i: int|
        0 <= i < stmts.len() ==> (#[trigger] stmts[i] matches Statement::Func { params, return_type, .. }
            ==> plain_prototype(params@, return_type, true))
}

/// The C name under which a top-level function is declared: a runtime
/// `vio_` name is kept, others get the prefix `vio_user_`.
pub open spec fn declared_c_name(name: Seq<char>) -> Seq<char> {
    if "vio_"@.len() <= name.len() && name.take(4) == "vio_"@ {
        name
    } else {
        "vio_user_"@ + name
    }
}

/// The prototypes of the functions declared among the statements other
/// than `main`, in order.
pub open spec fn prototype_lines(stmts: Seq<Statement>) -> Seq<Seq<char>>
    decreases stmts.len(),
{
    if stmts.len() == 0 {
        Seq::empty()
    } else {
        let prev = prototype_lines(stmts.drop_last());
        match stmts.last() {
            Statement::Func { name, params, return_type, .. } => if name@ != "main"@ {
                prev.push(prototype_text(declared_c_name(name@), params@, return_type, true))
            } else {
                prev
            },
            _ => prev,
        }
    }
}

/// The lines of a part of the C file, followed by an empty line when there
/// are any.
pub open spec fn section(lines: Seq<Seq<char>>) -> Seq<Seq<char>> {
    if lines.len() == 0 {
        lines
    } else {
        lines.push("\n"@)
    }
}

/// The C file: the runtime include, the typedefs, the lambda prototypes, the
/// program's lines and the lifted lambdas, each part closed by an empty line
/// where it has lines, all joined by newlines, with a final newline.
pub open spec fn program_text(
    typedefs: Seq<Seq<char>>,
    protos: Seq<Seq<char>>,
    body: Seq<Seq<char>>,
    lifted: Seq<Seq<char>>,
) -> Seq<char> {
    joined(seq![runtime_include()] + section(typedefs) + section(protos) + body + section(lifted), "\n"@) + "\n"@
}

/// No parameter or field has a function type.
#[verifier::opaque]
pub open spec fn fn_free_params(params: Seq<FuncParam>) -> bool {
    forall|i: int| 0 <= i < params.len() ==> fn_free(resolve_ty(#[trigger] params[i].param_type))
}

/// The type a parameter has in the function's body: a reference to its
/// declared type (mutable for a `var` parameter) when it is taken by
/// reference.
pub open spec fn param_ty_view(p: FuncParam) -> TyView {
    if p.is_ref {
        TyView::Ref { inner: Box::new(resolve_ty(p.param_type)), is_mut: p.kind is Var }
    } else {
        resolve_ty(p.param_type)
    }
}

/// The typing in a function's body: its parameters bound, one after
/// another, at the function's place.
pub open spec fn params_bound(g: Typing, params: Seq<FuncParam>, span: crate::lexer::span::Span) -> Typing
    decreases params.len(),
{
    if params.len() == 0 {
        g
    } else {
        let before = params_bound(g, params.drop_last(), span);
        Typing {
            scopes: bound(
                before.scopes,
                params.last().name@,
                EntityView { ty: param_ty_view(params.last()), kind: params.last().kind, span },
            ),
            ..before
        }
    }
}

/// A parameter of a C function: its type and its name.
pub open spec fn c_param_text(p: FuncParam) -> Seq<char> {
    c_type_text(param_ty_view(p)) + " "@ + p.name@
}

/// The function's parts have C types that name no function type, and its
/// body is plain in the typing its parameters make.
#[verifier::opaque]
pub open spec fn plain_function(g: Typing, stmt: Statement) -> bool {
    match stmt {
        Statement::Func { params, return_type, body, span, .. } => {
            &&& forall|i: int| 0 <= i < params@.len() ==> fn_free(param_ty_view(#[trigger] params@[i]))
            &&& (match return_type {
                Some(t) => fn_free(resolve_ty(t)),
                None => true,
            })
            &&& plain_block(params_bound(with_scope(g), params@, span), body@)
        },
        _ => false,
    }
}

/// The C definition of a plain function named `c_name` in C, or the error
/// its body meets.
#[verifier::opaque]
pub open spec fn function_text(g: Typing, externs: Set<Seq<char>>, stmt: Statement, c_name: Seq<char>) -> Result<
    Seq<char>,
    CgErr,
> {
    match stmt {
        Statement::Func { name, params, return_type, body, span, .. } => {
            let ret = match return_type {
                Some(t) => c_type_text(resolve_ty(t)),
                None => if name@ == "main"@ {
                    "int"@
                } else {
                    "void"@
                },
            };
            let parameters = if params@.len() == 0 && c_name == "main"@ {
                "void"@
            } else {
                joined(Seq::new(params@.len(), |i: int| c_param_text(params@[i])), ", "@)
            };
            match c_block(params_bound(with_scope(g), params@, span), externs, body@) {
                Ok(b) => Ok(ret + " "@ + c_name + "("@ + parameters + ") {\n"@ + b + "\n}\n"@),
                Err(m) => Err(m),
            }
        },
        _ => Err(CgErr::Unexpected("not a function declaration"@)),
    }
}

/// The start of the C statement expression of a `match` on a value of the
/// struct-like variant type `s`, whose C text is `target_val`, with a result
/// of C type `res_c`, numbered `n`: up to its cases.
pub open spec fn match_prefix(s: Seq<char>, target_val: Seq<char>, res_c: Seq<char>, n: nat) -> Seq<char> {
    let tv = "_vio_match_target_"@ + digits_text(n);
    let rv = "_vio_match_res_"@ + digits_text(n);
    "({\n"@ + s + " "@ + tv + " = "@ + target_val + ";\n"@ + res_c + " "@ + rv + ";\nswitch ("@ + tv + ".tag) {\n"@
}

/// The end of the C statement expression of a `match` numbered `n`, after
/// its cases.
pub open spec fn match_suffix(n: nat) -> Seq<char> {
    "\n}\n"@ + "_vio_match_res_"@ + digits_text(n) + ";\n})"@
}

/// `({ T tv = v; R rv; switch (tv.tag) { cases } rv; })`, the cases one per
/// line.
fn match_block(target_c: &str, target_var: &str, target_val: &str, res_c: &str, res_var: &str, cases: &Vec<String>) -> (r:
    String)
    ensures
        r@ == "({\n"@ + target_c@ + " "@ + target_var@ + " = "@ + target_val@ + ";\n"@ + res_c@ + " "@ + res_var@
            + ";\nswitch ("@ + target_var@ + ".tag) {\n"@ + joined(texts(cases@), "\n"@) + "\n}\n"@ + res_var@
            + ";\n})"@,
{
    let cases_text = join_strings(cases, "\n");
    let part1 = concat(&vec!["({\n", target_c, " ", target_var, " = ", target_val, ";\n"]);
    let part2 = concat(&vec![res_c, " ", res_var, ";\nswitch (", target_var, ".tag) {\n"]);
    let part3 = concat(&vec![cases_text.as_str(), "\n}\n", res_var, ";\n})"]);
    let res = concat(&vec![part1.as_str(), part2.as_str(), part3.as_str()]);
    assert(res@ =~= "({\n"@ + target_c@ + " "@ + target_var@ + " = "@ + target_val@ + ";\n"@ + res_c@ + " "@ + res_var@
        + ";\nswitch ("@ + target_var@ + ".tag) {\n"@ + joined(texts(cases@), "\n"@) + "\n}\n"@ + res_var@ + ";\n})"@);
    res
}

/// `t` is the C text of a `match` on `target` with the arms `arms`,
/// numbered `n`: the target a struct-like variant, its C text the one of
/// `target`, the result of the C type of `match_res_view`, and a C case for
/// each arm, in order, one per line.
#[verifier::opaque]
pub open spec fn is_match_text(
    g: Typing,
    externs: Set<Seq<char>>,
    expr: Expression,
    target: Expression,
    arms: Seq<crate::parser::statement::MatchArm>,
    expected: Option<TyView>,
    n: nat,
    t: Seq<char>,
) -> bool {
    match c_expr(g, externs, target) {
        Ok(tv) => match ty_of(g, target, None) {
            TyView::Struct(s) => exists|cases: Seq<String>|
                #[trigger] cases_ok(s, arms, cases) && t == match_prefix(
                    s,
                    tv,
                    c_type_text(match_res_view(g, expr, expected)),
                    n,
                ) + joined(texts(cases), "\n"@) + match_suffix(n),
            _ => false,
        },
        Err(_) => false,
    }
}

/// The type of a `match`'s result: the type the context expects, else the
/// type the checker gives the `match`.
pub open spec fn match_res_view(g: Typing, expr: Expression, expected: Option<TyView>) -> TyView {
    match expected {
        Some(t) => t,
        None => ty_of(g, expr, None),
    }
}

/// The type a prototype gives a parameter: as in the function's body when
/// `with_refs`, else its declared type.
pub open spec fn proto_param_view(p: FuncParam, with_refs: bool) -> TyView {
    if with_refs {
        param_ty_view(p)
    } else {
        resolve_ty(p.param_type)
    }
}

/// The prototype's parts have C types that name no function type.
pub open spec fn plain_prototype(params: Seq<FuncParam>, return_type: Option<Type>, with_refs: bool) -> bool {
    &&& forall|i: int| 0 <= i < params.len() ==> fn_free(proto_param_view(#[trigger] params[i], with_refs))
    &&& fn_free(resolve_ret(return_type))
}

/// `T name(params);`, with `void` for no parameters.
pub open spec fn prototype_text(c_name: Seq<char>, params: Seq<FuncParam>, return_type: Option<Type>, with_refs: bool) -> Seq<
    char,
> {
    c_type_text(resolve_ret(return_type)) + " "@ + c_name + "("@ + if params.len() == 0 {
        "void"@
    } else {
        joined(
            Seq::new(params.len(), |i: int| c_type_text(proto_param_view(params[i], with_refs)) + " "@ + params[i].name@),
            ", "@,
        )
    } + ");"@
}

/// The C name of a function of the program: `main`, a runtime `vio_` name
/// and an extern function keep their name, others get the prefix
/// `vio_user_`.
pub open spec fn fn_c_name(externs: Set<Seq<char>>, name: Seq<char>) -> Seq<char> {
    if name == "main"@ || ("vio_"@.len() <= name.len() && name.take(4) == "vio_"@) || externs.contains(name) {
        name
    } else {
        "vio_user_"@ + name
    }
}

/// The text of a plain function from its parts: its result type, its
/// parameters and its body.
pub proof fn lemma_function_text(
    g: Typing,
    externs: Set<Seq<char>>,
    stmt: Statement,
    c_name: Seq<char>,
    ret: Seq<char>,
    parameters: Seq<char>,
    b: Seq<char>,
)
    requires
        stmt matches Statement::Func { name, params, return_type, body, span, .. } && {
            &&& ret == match return_type {
                Some(t) => c_type_text(resolve_ty(t)),
                None => if name@ == "main"@ {
                    "int"@
                } else {
                    "void"@
                },
            }
            &&& parameters == if params@.len() == 0 && c_name == "main"@ {
                "void"@
            } else {
                joined(Seq::new(params@.len(), |i: int| c_param_text(params@[i])), ", "@)
            }
            &&& c_block(params_bound(with_scope(g), params@, span), externs, body@) == Ok::<Seq<char>, CgErr>(b)
        },
    ensures
        function_text(g, externs, stmt, c_name) == Ok::<Seq<char>, CgErr>(
            ret + " "@ + c_name + "("@ + parameters + ") {\n"@ + b + "\n}\n"@,
        ),
{
    reveal(function_text);
}

/// The error a plain function's body meets is the function's.
pub proof fn lemma_function_text_err(g: Typing, externs: Set<Seq<char>>, stmt: Statement, c_name: Seq<char>, m: CgErr)
    requires
        stmt matches Statement::Func { params, body, span, .. } && c_block(
            params_bound(with_scope(g), params@, span),
            externs,
            body@,
        ) == Err::<Seq<char>, CgErr>(m),
    ensures
        function_text(g, externs, stmt, c_name) == Err::<Seq<char>, CgErr>(m),
{
    reveal(function_text);
}

/// Binding a name in a non-empty stack of scopes changes the innermost
/// scope alone.
pub proof fn lemma_bound_inner(scopes: Seq<Map<Seq<char>, EntityView>>, name: Seq<char>, e: EntityView)
    requires
        scopes.len() > 0,
    ensures
        bound(scopes, name, e).len() == scopes.len(),
        bound(scopes, name, e).drop_last() == scopes.drop_last(),
{
    assert(bound(scopes, name, e).drop_last() =~= scopes.drop_last());
}

/// The code of plain statements changes the innermost scope alone.
pub proof fn lemma_typing_after_inner(g: Typing, s: Seq<Statement>)
    requires
        g.scopes.len() > 0,
    ensures
        typing_after(g, s).scopes.len() == g.scopes.len(),
        typing_after(g, s).scopes.drop_last() == g.scopes.drop_last(),
        typing_after(g, s).funcs == g.funcs,
        typing_after(g, s).structs == g.structs,
    decreases s.len(),
{
    if s.len() > 0 {
        lemma_typing_after_inner(g, s.drop_last());
        let t = typing_after(g, s.drop_last());
        match s.last() {
            Statement::Let { name, value, span } => {
                lemma_bound_inner(t.scopes, name@, EntityView { ty: ty_of(t, value, None), kind: BindingKind::Var, span });
            },
            Statement::Var { name, value, span } => {
                lemma_bound_inner(t.scopes, name@, EntityView { ty: ty_of(t, value, None), kind: BindingKind::Var, span });
            },
            Statement::Const { name, value, span } => {
                lemma_bound_inner(
                    t.scopes,
                    name@,
                    EntityView { ty: ty_of(t, value, None), kind: BindingKind::Const, span },
                );
            },
            _ => {},
        }
    }
}

/// Binding a function's parameters changes the innermost scope alone.
pub proof fn lemma_params_bound_inner(g: Typing, params: Seq<FuncParam>, span: crate::lexer::span::Span)
    requires
        g.scopes.len() > 0,
    ensures
        params_bound(g, params, span).scopes.len() == g.scopes.len(),
        params_bound(g, params, span).scopes.drop_last() == g.scopes.drop_last(),
        params_bound(g, params, span).funcs == g.funcs,
        params_bound(g, params, span).structs == g.structs,
    decreases params.len(),
{
    if params.len() > 0 {
        lemma_params_bound_inner(g, params.drop_last(), span);
        let t = params_bound(g, params.drop_last(), span);
        lemma_bound_inner(
            t.scopes,
            params.last().name@,
            EntityView { ty: param_ty_view(params.last()), kind: params.last().kind, span },
        );
    }
}

/// The name an `extend` block gives its methods' C names: the struct's
/// name, else the `{:?}` text of the type.
pub open spec fn extend_target_name(target: Type) -> Seq<char> {
    match resolve_ty(target) {
        TyView::Struct(s) => s,
        t => debug_text(t),
    }
}

/// The C definitions of the functions among `methods`, each named
/// `vio_user_T_m`, or the first error met.
pub open spec fn extend_lines(g: Typing, externs: Set<Seq<char>>, tname: Seq<char>, methods: Seq<Statement>) -> Result<
    Seq<Seq<char>>,
    CgErr,
>
    decreases methods.len(),
{
    if methods.len() == 0 {
        Ok(Seq::empty())
    } else {
        match extend_lines(g, externs, tname, methods.drop_last()) {
            Ok(ls) => match methods.last() {
                Statement::Func { name, .. } => match function_text(
                    g,
                    externs,
                    methods.last(),
                    "vio_user_"@ + tname + "_"@ + name@,
                ) {
                    Ok(t) => Ok(ls.push(t)),
                    Err(m) => Err(m),
                },
                _ => Ok(ls),
            },
            Err(m) => Err(m),
        }
    }
}

/// An error among the first methods is the error of them all.
pub proof fn lemma_extend_lines_err(g: Typing, externs: Set<Seq<char>>, tname: Seq<char>, s: Seq<Statement>, n: int)
    requires
        0 <= n <= s.len(),
        extend_lines(g, externs, tname, s.take(n)) is Err,
    ensures
        extend_lines(g, externs, tname, s) == extend_lines(g, externs, tname, s.take(n)),
    decreases s.len(),
{
    if n < s.len() {
        assert(s.drop_last().take(n) == s.take(n));
        lemma_extend_lines_err(g, externs, tname, s.drop_last(), n);
    } else {
        assert(s.take(n) == s);
    }
}

/// Each function among the methods is plain.
pub open spec fn plain_methods(g: Typing, methods: Seq<Statement>) -> bool {
    forall|i: int| 0 <= i < methods.len() && #[trigger] methods[i] is Func ==> plain_function(g, methods[i])
}

/// The name a `match` arm's pattern names: `C`, `x.C`, `C(..)` or `x.C(..)`.
pub open spec fn pattern_name(pat: Expression) -> Seq<char> {
    match pat {
        Expression::Identifier { name, .. } => name@,
        Expression::Field { name, .. } => name@,
        Expression::Call { function, .. } => match *function {
            Expression::Identifier { name, .. } => name@,
            _ => Seq::empty(),
        },
        Expression::MethodCall { name, .. } => name@,
        _ => Seq::empty(),
    }
}

/// The start of the C case of an arm of a `match` on the variant type `v`:
/// `default: {` for the pattern `_`, else `case VIO_TAG_v_C: {`.
pub open spec fn case_head(v: Seq<char>, name: Seq<char>) -> Seq<char> {
    if name == "_"@ {
        "default: {\n"@
    } else {
        "case VIO_TAG_"@ + v + "_"@ + name + ": {\n"@
    }
}

/// The C case of an arm whose pattern is `pat`, its body's lines being
/// `body`: it ends by leaving the switch.
pub open spec fn case_text(v: Seq<char>, pat: Expression, body: Seq<char>) -> Seq<char> {
    case_head(v, pattern_name(pat)) + body + "    break;\n}"@
}

/// `t` is the C case of an arm whose pattern is `pat`, its body being some
/// lines.
#[verifier::opaque]
pub open spec fn is_case_text(v: Seq<char>, pat: Expression, t: Seq<char>) -> bool {
    exists|b: Seq<char>| t == #[trigger] case_text(v, pat, b)
}

/// `cases` are the C cases of the arms, one for each, in order.
#[verifier::opaque]
pub open spec fn cases_ok(v: Seq<char>, arms: Seq<crate::parser::statement::MatchArm>, cases: Seq<String>) -> bool {
    &&& cases.len() == arms.len()
    &&& forall|k: int| 0 <= k < arms.len() ==> is_case_text(v, arms[k].pattern, (#[trigger] cases[k])@)
}

/// The first line of every generated C file.
pub open spec fn runtime_include() -> Seq<char> {
    "#include \"vio_runtime.h\"\n"@
}

impl Codegen {
    /// The signature line `ret name(params);` of a function, for the
    /// forward declarations.
    fn emit_prototype(&mut self, c_name: &str, params: &Vec<FuncParam>, return_type: &Option<Type>, with_refs: bool) -> (r:
        String)
        requires
            old(self).wf(),
            params_wf(params@),
            match *return_type {
                Some(t) => type_wf(t),
                None => true,
            },
        ensures
            final(self).grows_from(old(self)),
            final(self).checker == old(self).checker,
            final(self).lambda_count == old(self).lambda_count,
            plain_prototype(params@, *return_type, with_refs) ==> r@ == prototype_text(
                c_name@,
                params@,
                *return_type,
                with_refs,
            ),
    {
        proof {
            lemma_params_wf(params@);
            reveal_strlit("void");
        }
        let ghost pp = plain_prototype(params@, *return_type, with_refs);
        let ret_ty = self.checker.resolve_return(return_type);
        let ret_str = self.c_type(&ret_ty);
        let mut parts: Vec<String> = Vec::new();
        let mut i: usize = 0;
        while i < params.len()
            invariant
                i <= params.len(),
                self.grows_from(old(self)),
                self.checker == old(self).checker,
                self.lambda_count == old(self).lambda_count,
                forall|k: int| 0 <= k < params.len() ==> type_wf(#[trigger] params@[k].param_type),
                pp == plain_prototype(params@, *return_type, with_refs),
                pp ==> texts(parts@) == Seq::new(
                    i as nat,
                    |k: int| c_type_text(proto_param_view(params@[k], with_refs)) + " "@ + params@[k].name@,
                ),
            decreases params.len() - i,
        {
            let ty = if with_refs {
                self.param_type(&params[i])
            } else {
                self.checker.resolve(&params[i].param_type)
            };
            let ct = self.c_type(&ty);
            let ghost before = parts@;
            parts.push(concat(&vec![ct.as_str(), " ", params[i].name.as_str()]));
            proof {
                if pp {
                    assert(fn_free(proto_param_view(params@[i as int], with_refs)));
                    crate::text::lemma_texts_push(before, parts@.last());
                    assert(parts@ == before.push(parts@.last()));
                    assert(texts(parts@) =~= Seq::new(
                        (i + 1) as nat,
                        |k: int| c_type_text(proto_param_view(params@[k], with_refs)) + " "@ + params@[k].name@,
                    ));
                }
            }
            i = i + 1;
        }
        let params_str = if parts.len() == 0 {
            string_from("void")
        } else {
            join_strings(&parts, ", ")
        };
        let res = concat(&vec![ret_str.as_str(), " ", c_name, "(", params_str.as_str(), ");"]);
        proof {
            if pp {
                assert(texts(parts@) =~= Seq::new(
                    params.len() as nat,
                    |k: int| c_type_text(proto_param_view(params@[k], with_refs)) + " "@ + params@[k].name@,
                ));
                assert(res@ =~= prototype_text(c_name@, params@, *return_type, with_refs));
            }
        }
        res
    }

    /// The C file for a program: the runtime include, function-pointer
    /// typedefs and lambda prototypes, `#define`s for the constants, the
    /// structs, forward declarations of the functions and methods, their
    /// definitions, a C `main` for the `main` function or the top-level
    /// code, and the lifted lambdas.
    /// The lines for the declarations of a program: the runtime include,
    /// `#define`s of the constants, the structs, the prototypes of the
    /// functions and methods, then the functions themselves; the checker
    /// learns the signatures and a scope is opened for the program.
    fn emit_declarations(&mut self, decls: &Vec<Statement>) -> (r: Result<Vec<String>, CodegenError>)
        requires
            old(self).wf(),
            stmts_wf(decls@),
            stmts_cg(decls@),
            crate::typechecker::checker::redeclarations_ok(old(self).checker.structs_map(), decls@),
        ensures
            final(self).wf(),
            r matches Ok(ls) ==> ls.len() > 0 && ls@[0]@ == runtime_include(),
            decls@.len() == 0 ==> (r matches Ok(ls) && texts(ls@) == seq![runtime_include(), "\n"@]),
            decls@.len() == 0 ==> final(self).checker.typing() == (Typing {
                scopes: old(self).checker.env.scope_maps().push(Map::empty()),
                ..old(self).checker.typing()
            }) && final(self).extern_funcs == old(self).extern_funcs && final(self).keeps_output(old(self)),
            r matches Ok(ls) ==> (no_consts(decls@) && struct_fields_fn_free(decls@) ==> lines_start_with(
                ls@,
                seq![runtime_include()] + struct_texts(decls@),
            )),
            r matches Ok(ls) ==> (no_consts(decls@) && struct_fields_fn_free(decls@) && no_extends(decls@)
                && plain_prototypes(decls@) ==> lines_start_with(
                ls@,
                seq![runtime_include()] + struct_texts(decls@) + prototype_lines(decls@) + seq!["\n"@],
            )),
    {
        proof {
            lemma_stmts_wf(decls@);
            lemma_stmts_cg(decls@);
            reveal_strlit("#include \"vio_runtime.h\"\n");
            reveal_strlit("\n");
        }
        let mut i: usize = 0;
        while i < decls.len()
            invariant
                i <= decls.len(),
                self.wf(),
                self.checker == old(self).checker,
                decls.len() == 0 ==> *self == *old(self),
            decreases decls.len() - i,
        {
            if let Statement::ExternFunc { name, .. } = &decls[i] {
                if !self.is_extern(name) {
                    self.extern_funcs.push(name.clone());
                }
            }
            i = i + 1;
        }
        let mut lines: Vec<String> = Vec::new();
        lines.push(string_from("#include \"vio_runtime.h\"\n"));
        let mut global_defines: Vec<String> = Vec::new();
        self.checker.collect_signatures(decls);
        self.checker.env.push();
        let ghost s1 = *self;
        let ghost l1 = lines@;
        let mut i: usize = 0;
        while i < decls.len()
            invariant
                i <= decls.len(),
                self.wf(),
                lines.len() > 0,
                lines@[0]@ == runtime_include(),
                forall|k: int| 0 <= k < decls.len() ==> stmt_wf(#[trigger] decls@[k]),
                forall|k: int| 0 <= k < decls.len() ==> stmt_cg(#[trigger] decls@[k]),
                decls.len() == 0 ==> *self == s1 && lines@ == l1 && global_defines@.len() == 0,
                no_consts(decls@) ==> global_defines@.len() == 0,
                texts(lines@) == seq![runtime_include()],
            decreases decls.len() - i,
        {
            if let Statement::Const { name, value, span } = &decls[i] {
                let val_str = self.emit_expression(value)?;
                let ty = self.checker.infer(value, None);
                self.checker.defined(name.clone(), ty, BindingKind::Const, *span);
                global_defines.push(concat(&vec!["#define ", name.as_str(), " ", val_str.as_str()]));
            }
            i = i + 1;
        }
        if global_defines.len() > 0 {
            lines.append(&mut global_defines);
            lines.push(string_from("\n"));
        }
        let mut i: usize = 0;
        while i < decls.len()
            invariant
                i <= decls.len(),
                self.wf(),
                lines.len() > 0,
                lines@[0]@ == runtime_include(),
                forall|k: int| 0 <= k < decls.len() ==> stmt_wf(#[trigger] decls@[k]),
                forall|k: int| 0 <= k < decls.len() ==> stmt_cg(#[trigger] decls@[k]),
                decls.len() == 0 ==> *self == s1 && lines@ == l1,
                no_consts(decls@) && struct_fields_fn_free(decls@) ==> texts(lines@) == seq![runtime_include()]
                    + struct_texts(decls@.take(i as int)),
            decreases decls.len() - i,
        {
            let ghost before = lines@;
            proof {
                assert(decls@.take(i + 1).drop_last() =~= decls@.take(i as int));
                assert(decls@.take(i + 1).last() == decls@[i as int]);
            }
            if matches!(decls[i], Statement::Struct { .. }) {
                let struct_str = self.emit_struct(&decls[i])?;
                lines.push(struct_str);
                proof {
                    lemma_texts_push(before, struct_str);
                }
            }
            i = i + 1;
        }
        proof {
            assert(decls@.take(decls.len() as int) =~= decls@);
        }
        let ghost pre = texts(lines@);
        let main_name = string_from("main");
        let mut i: usize = 0;
        while i < decls.len()
            invariant
                i <= decls.len(),
                self.wf(),
                lines.len() > 0,
                lines@[0]@ == runtime_include(),
                forall|k: int| 0 <= k < decls.len() ==> stmt_wf(#[trigger] decls@[k]),
                decls.len() == 0 ==> *self == s1 && lines@ == l1,
                lines_start_with(lines@, pre),
                main_name@ == "main"@,
                no_consts(decls@) && struct_fields_fn_free(decls@) && no_extends(decls@) && plain_prototypes(decls@)
                    ==> texts(lines@) == pre + prototype_lines(decls@.take(i as int)),
            decreases decls.len() - i,
        {
            let ghost before = lines@;
            proof {
                assert(decls@.take(i + 1).drop_last() =~= decls@.take(i as int));
                assert(decls@.take(i + 1).last() == decls@[i as int]);
                reveal_strlit("vio_");
                reveal_strlit("vio_user_");
            }
            match &decls[i] {
                Statement::Func { name, params, return_type, .. } => {
                    if *name != main_name {
                        let c_name = if has_prefix(name.as_str(), "vio_") {
                            name.clone()
                        } else {
                            concat(&vec!["vio_user_", name.as_str()])
                        };
                        assert(c_name@ == declared_c_name(name@));
                        let proto = self.emit_prototype(c_name.as_str(), params, return_type, true);
                        lines.push(proto);
                        proof {
                            lemma_texts_push(before, proto);
                        }
                    }
                },
                Statement::Extend { target, methods, .. } => {
                    proof {
                        lemma_stmts_wf(methods@);
                    }
                    let target_ty = self.checker.resolve(target);
                    let target_name = match &target_ty {
                        Ty::Struct(name) => name.clone(),
                        _ => target_ty.debug(),
                    };
                    let mut m: usize = 0;
                    while m < methods.len()
                        invariant
                            m <= methods.len(),
                            self.wf(),
                            lines.len() > 0,
                            lines@[0]@ == runtime_include(),
                            forall|k: int| 0 <= k < methods.len() ==> stmt_wf(#[trigger] methods@[k]),
                            lines_start_with(lines@, pre),
                        decreases methods.len() - m,
                    {
                        if let Statement::Func { name, params, return_type, .. } = &methods[m] {
                            let c_name = concat(&vec!["vio_user_", target_name.as_str(), "_", name.as_str()]);
                            let proto = self.emit_prototype(c_name.as_str(), params, return_type, false);
                            lines.push(proto);
                        }
                        m = m + 1;
                    }
                },
                _ => {},
            }
            i = i + 1;
        }
        proof {
            assert(decls@.take(decls.len() as int) =~= decls@);
        }
        let ghost before_blank = lines@;
        lines.push(string_from("\n"));
        let ghost l2 = lines@;
        let ghost pre2 = texts(lines@);
        proof {
            reveal_strlit("\n");
            lemma_texts_push(before_blank, lines@.last());
        }
        let mut i: usize = 0;
        while i < decls.len()
            invariant
                i <= decls.len(),
                self.wf(),
                lines.len() > 0,
                lines@[0]@ == runtime_include(),
                forall|k: int| 0 <= k < decls.len() ==> stmt_wf(#[trigger] decls@[k]),
                decls.len() == 0 ==> *self == s1 && lines@ == l2,
            decreases decls.len() - i,
        {
            if let Statement::Func { name, params, return_type, span, .. } = &decls[i] {
                proof {
                    lemma_params_wf(params@);
                }
                let mut ps: Vec<Ty> = Vec::new();
                let mut k: usize = 0;
                while k < params.len()
                    invariant
                        k <= params.len(),
                        self.wf(),
                        forall|x: int| 0 <= x < params.len() ==> type_wf(#[trigger] params@[x].param_type),
                    decreases params.len() - k,
                {
                    let t = self.param_type(&params[k]);
                    ps.push(t);
                    k = k + 1;
                }
                let ret = self.checker.resolve_return(return_type);
                let fn_ty = Ty::Fn { params: ps, ret: Box::new(ret) };
                self.checker.defined(name.clone(), fn_ty, BindingKind::Var, *span);
            }
            i = i + 1;
        }
        let mut i: usize = 0;
        while i < decls.len()
            invariant
                i <= decls.len(),
                self.wf(),
                lines.len() > 0,
                lines@[0]@ == runtime_include(),
                forall|k: int| 0 <= k < decls.len() ==> stmt_wf(#[trigger] decls@[k]),
                forall|k: int| 0 <= k < decls.len() ==> stmt_cg(#[trigger] decls@[k]),
                lines.len() > 0,
                lines@[0]@ == runtime_include(),
                decls.len() == 0 ==> *self == s1 && lines@ == l2,
                lines_start_with(lines@, pre),
                lines_start_with(lines@, pre2),
            decreases decls.len() - i,
        {
            let s = &decls[i];
            let is_main = match s {
                Statement::Func { name, .. } => *name == main_name,
                _ => false,
            };
            if matches!(s, Statement::Const { .. }) {
            } else if is_main {
                if let Statement::Func { body, .. } = s {
                    lines.push(string_from("int main(void) {"));
                    let b = self.emit_block(body)?;
                    lines.push(b);
                    lines.push(string_from("    return 0;"));
                    lines.push(string_from("}"));
                }
            } else {
                let st = if matches!(s, Statement::Struct { .. }) {
                    String::new()
                } else {
                    self.emit_statement(s)?
                };
                let st_lines = lines_of(st.as_str());
                let mut k: usize = 0;
                while k < st_lines.len()
                    invariant
                        k <= st_lines.len(),
                        lines.len() > 0,
                        lines@[0]@ == runtime_include(),
                        lines_start_with(lines@, pre),
                        lines_start_with(lines@, pre2),
                    decreases st_lines.len() - k,
                {
                    lines.push(st_lines[k].clone());
                    k = k + 1;
                }
            }
            i = i + 1;
        }
        proof {
            if decls.len() == 0 {
                assert(texts(lines@) =~= seq![runtime_include(), "\n"@]);
            }
        }
        Ok(lines)
    }

    /// The C file: the runtime include, the typedefs and lambda prototypes
    /// met, the program's lines and the lifted lambdas, joined by newlines,
    /// with a final newline.
    fn assemble_program(&self, lines: &Vec<String>) -> (r: String)
        requires
            lines.len() > 0,
            lines@[0]@ == runtime_include(),
        ensures
            r@.take(runtime_include().len() as int) == runtime_include(),
            r@.last() == '\n',
            r@ == program_text(
                texts(self.typedefs@),
                texts(self.lambda_prototypes@),
                texts(lines@).subrange(1, lines@.len() as int),
                texts(self.lifted_lambdas@),
            ),
            self.typedefs@.len() == 0 && self.lambda_prototypes@.len() == 0 && self.lifted_lambdas@.len() == 0
                ==> r@ == joined(texts(lines@), "\n"@) + "\n"@,
    {
        proof {
            reveal_strlit("#include \"vio_runtime.h\"\n");
            reveal_strlit("\n");
        }
        let ghost tds = texts(self.typedefs@);
        let ghost protos = texts(self.lambda_prototypes@);
        let ghost lifted = texts(self.lifted_lambdas@);
        let ghost body = texts(lines@).subrange(1, lines@.len() as int);
        let mut final_lines: Vec<String> = Vec::new();
        final_lines.push(string_from("#include \"vio_runtime.h\"\n"));
        let ghost h0 = texts(final_lines@);
        proof {
            assert(h0 =~= seq![runtime_include()]);
        }
        if self.typedefs.len() > 0 {
            let mut t = 0usize;
            while t < self.typedefs.len()
                invariant
                    t <= self.typedefs.len(),
                    final_lines.len() > 0,
                    final_lines@[0]@ == runtime_include(),
                    tds == texts(self.typedefs@),
                    texts(final_lines@) == h0 + tds.take(t as int),
                decreases self.typedefs.len() - t,
            {
                let ghost before = final_lines@;
                final_lines.push(self.typedefs[t].clone());
                proof {
                    lemma_texts_push(before, final_lines@.last());
                    assert(tds.take(t + 1) =~= tds.take(t as int).push(tds[t as int]));
                    assert(texts(final_lines@) =~= h0 + tds.take(t + 1));
                }
                t = t + 1;
            }
            let ghost before = final_lines@;
            final_lines.push(string_from("\n"));
            proof {
                lemma_texts_push(before, final_lines@.last());
                assert(tds.take(tds.len() as int) =~= tds);
                assert(texts(final_lines@) =~= h0 + section(tds));
            }
        } else {
            proof {
                assert(texts(final_lines@) =~= h0 + section(tds));
            }
        }
        let ghost h1 = texts(final_lines@);
        if self.lambda_prototypes.len() > 0 {
            let mut t = 0usize;
            while t < self.lambda_prototypes.len()
                invariant
                    t <= self.lambda_prototypes.len(),
                    final_lines.len() > 0,
                    final_lines@[0]@ == runtime_include(),
                    protos == texts(self.lambda_prototypes@),
                    texts(final_lines@) == h1 + protos.take(t as int),
                decreases self.lambda_prototypes.len() - t,
            {
                let ghost before = final_lines@;
                final_lines.push(self.lambda_prototypes[t].clone());
                proof {
                    lemma_texts_push(before, final_lines@.last());
                    assert(protos.take(t + 1) =~= protos.take(t as int).push(protos[t as int]));
                    assert(texts(final_lines@) =~= h1 + protos.take(t + 1));
                }
                t = t + 1;
            }
            let ghost before = final_lines@;
            final_lines.push(string_from("\n"));
            proof {
                lemma_texts_push(before, final_lines@.last());
                assert(protos.take(protos.len() as int) =~= protos);
                assert(texts(final_lines@) =~= h1 + section(protos));
            }
        } else {
            proof {
                assert(texts(final_lines@) =~= h1 + section(protos));
            }
        }
        let ghost pre_lines = texts(final_lines@);
        proof {
            assert(self.typedefs@.len() == 0 && self.lambda_prototypes@.len() == 0 ==> pre_lines =~= seq![runtime_include()]);
            assert(texts(lines@).take(1) =~= seq![runtime_include()]);
        }
        let mut t = 1usize;
        while t < lines.len()
            invariant
                1 <= t <= lines.len(),
                final_lines.len() > 0,
                final_lines@[0]@ == runtime_include(),
                lines@[0]@ == runtime_include(),
                texts(final_lines@) == pre_lines + texts(lines@).subrange(1, t as int),
            decreases lines.len() - t,
        {
            let ghost before = texts(final_lines@);
            final_lines.push(lines[t].clone());
            proof {
                assert(texts(final_lines@) =~= before.push(lines@[t as int]@));
                assert(texts(lines@).subrange(1, t + 1) =~= texts(lines@).subrange(1, t as int).push(lines@[t as int]@));
            }
            t = t + 1;
        }
        proof {
            if self.typedefs@.len() == 0 && self.lambda_prototypes@.len() == 0 {
                assert(texts(final_lines@) =~= texts(lines@));
            }
        }
        let ghost h2 = texts(final_lines@);
        if self.lifted_lambdas.len() > 0 {
            let mut t = 0usize;
            while t < self.lifted_lambdas.len()
                invariant
                    t <= self.lifted_lambdas.len(),
                    final_lines.len() > 0,
                    final_lines@[0]@ == runtime_include(),
                    lifted == texts(self.lifted_lambdas@),
                    texts(final_lines@) == h2 + lifted.take(t as int),
                decreases self.lifted_lambdas.len() - t,
            {
                let ghost before = final_lines@;
                final_lines.push(self.lifted_lambdas[t].clone());
                proof {
                    lemma_texts_push(before, final_lines@.last());
                    assert(lifted.take(t + 1) =~= lifted.take(t as int).push(lifted[t as int]));
                    assert(texts(final_lines@) =~= h2 + lifted.take(t + 1));
                }
                t = t + 1;
            }
            let ghost before = final_lines@;
            final_lines.push(string_from("\n"));
            proof {
                lemma_texts_push(before, final_lines@.last());
                assert(lifted.take(lifted.len() as int) =~= lifted);
                assert(texts(final_lines@) =~= h2 + section(lifted));
            }
        } else {
            proof {
                assert(texts(final_lines@) =~= h2 + section(lifted));
            }
        }
        proof {
            assert(texts(final_lines@) =~= seq![runtime_include()] + section(tds) + section(protos) + body + section(
                lifted,
            ));
        }
        let mut res = join_strings(&final_lines, "\n");
        proof {
            assert(texts(final_lines@)[0] == runtime_include());
            crate::text::lemma_joined_first(texts(final_lines@), "\n"@);
        }
        let ghost before = res@;
        string_push(&mut res, '\n');
        assert(res@.take(runtime_include().len() as int) =~= before.take(runtime_include().len() as int));
        assert(res@ =~= before + "\n"@);
        res
    }

    #[verifier::rlimit(40)]
    pub fn emit_program(&mut self, prg: Program) -> (r: Result<String, CodegenError>)
        requires
            old(self).wf(),
            stmts_wf(prg.declarations@),
            stmts_cg(prg.declarations@),
            stmts_wf(prg.main@),
            stmts_cg(prg.main@),
            crate::typechecker::checker::redeclarations_ok(old(self).checker.structs_map(), prg.declarations@),
        ensures
            final(self).wf(),
            r matches Ok(s) ==> s@.take(runtime_include().len() as int) == runtime_include() && s@.last() == '\n',
            ({
                let g = Typing {
                    scopes: old(self).checker.env.scope_maps().push(Map::empty()).push(Map::empty()),
                    ..old(self).checker.typing()
                };
                prg.declarations@.len() == 0 && old(self).typedefs@.len() == 0 && old(
                    self,
                ).lambda_prototypes@.len() == 0 && old(self).lifted_lambdas@.len() == 0 && plain_block(g, prg.main@)
                    ==> text_of(r) == if prg.main@.len() == 0 {
                    Ok::<Seq<char>, CgErr>(
                        joined(seq![runtime_include(), "\n"@, "int main(void) {\n\t\n}"@], "\n"@) + "\n"@,
                    )
                } else {
                    match c_block(g, old(self).externs(), prg.main@) {
                        Ok(b) => Ok(joined(seq![runtime_include(), "\n"@, "int main(void) {"@, b, "}"@], "\n"@) + "\n"@),
                        Err(m) => Err(m),
                    }
                }
            }),
            r matches Ok(s) ==> (no_consts(prg.declarations@) && struct_fields_fn_free(prg.declarations@) ==> exists|
                rest: Seq<Seq<char>>,
            |
                s@ == program_text(
                    texts(final(self).typedefs@),
                    texts(final(self).lambda_prototypes@),
                    struct_texts(prg.declarations@) + rest,
                    texts(final(self).lifted_lambdas@),
                )),
            r matches Ok(s) ==> (no_consts(prg.declarations@) && struct_fields_fn_free(prg.declarations@) && no_extends(
                prg.declarations@,
            ) && plain_prototypes(prg.declarations@) ==> exists|rest: Seq<Seq<char>>|
                s@ == program_text(
                    texts(final(self).typedefs@),
                    texts(final(self).lambda_prototypes@),
                    struct_texts(prg.declarations@) + prototype_lines(prg.declarations@) + seq!["\n"@] + rest,
                    texts(final(self).lifted_lambdas@),
                )),
    {
        proof {
            reveal_strlit("int main(void) {");
            reveal_strlit("}");
            reveal_strlit("int main(void) {\n\t\n}");
        }
        let ghost g0 = self.checker.typing();
        let ghost x0 = self.externs();
        let mut lines = self.emit_declarations(&prg.declarations)?;
        let ghost ld = lines@;
        let decls = &prg.declarations;
        let ghost l0 = texts(lines@);
        let ghost g = Typing { scopes: g0.scopes.push(Map::empty()).push(Map::empty()), ..g0 };
        let ghost s0 = *self;
        if prg.main.len() > 0 {
            lines.push(string_from("int main(void) {"));
            self.checker.env.push();
            proof {
                if decls.len() == 0 {
                    assert(self.checker.typing() == g);
                }
            }
            let b = self.emit_block(&prg.main)?;
            lines.push(b);
            self.checker.env.pop();
            lines.push(string_from("}"));
            proof {
                assert(texts(lines@) =~= l0 + seq!["int main(void) {"@, b@, "}"@]);
                if decls.len() == 0 {
                    assert(l0 + seq!["int main(void) {"@, b@, "}"@] =~= seq![
                        runtime_include(),
                        "\n"@,
                        "int main(void) {"@,
                        b@,
                        "}"@,
                    ]);
                }
            }
        } else if decls.len() == 0 {
            lines.push(string_from("int main(void) {\n\t\n}"));
            proof {
                assert(texts(lines@) =~= l0.push("int main(void) {\n\t\n}"@));
                assert(texts(lines@) =~= seq![runtime_include(), "\n"@, "int main(void) {\n\t\n}"@]);
            }
        }
        proof {
            assert(lines@.subrange(0, ld.len() as int) =~= ld);
        }
        let res = self.assemble_program(&lines);
        proof {
            if no_consts(decls@) && struct_fields_fn_free(decls@) {
                let p = seq![runtime_include()] + struct_texts(decls@);
                let n = p.len();
                let all = texts(lines@);
                assert forall|j: int| 0 <= j < n implies all[j] == p[j] by {
                    assert(lines@[j] == ld[j]);
                }
                let rest = all.subrange(n as int, all.len() as int);
                assert(all.subrange(1, all.len() as int) =~= struct_texts(decls@) + rest);
                if no_extends(decls@) && plain_prototypes(decls@) {
                    let q = seq![runtime_include()] + struct_texts(decls@) + prototype_lines(decls@) + seq!["\n"@];
                    let m = q.len();
                    assert forall|j: int| 0 <= j < m implies all[j] == q[j] by {
                        assert(lines@[j] == ld[j]);
                    }
                    let rest2 = all.subrange(m as int, all.len() as int);
                    assert(all.subrange(1, all.len() as int) =~= struct_texts(decls@) + prototype_lines(decls@) + seq![
                        "\n"@,
                    ] + rest2);
                }
            }
        }
        Ok(res)
    }
}

/// `for (int64_t v = a; v cmp z; v++) {\n body \n}`.
fn range_loop_line(v: &str, a: &str, cmp: &str, z: &str, body: &str) -> (r: String)
    ensures
        r@ == "for (int64_t "@ + v@ + " = "@ + a@ + "; "@ + v@ + " "@ + cmp@ + " "@ + z@ + "; "@ + v@ + "++) {\n"@
            + body@ + "\n}"@,
{
    let head = concat(&vec!["for (int64_t ", v, " = ", a, "; ", v, " "]);
    let tail = concat(&vec![cmp, " ", z, "; ", v, "++) {\n", body]);
    let res = concat(&vec![head.as_str(), tail.as_str(), "\n}"]);
    assert(res@ =~= "for (int64_t "@ + v@ + " = "@ + a@ + "; "@ + v@ + " "@ + cmp@ + " "@ + z@ + "; "@ + v@ + "++) {\n"@
        + body@ + "\n}"@);
    res
}

} // verus!
