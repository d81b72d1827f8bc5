use vstd::prelude::*;

use crate::text::{debug_quoted, str_debug, string_from, string_push_str};

verus! {

/// A type of the Violette type system.
#[derive(Debug, PartialEq)]
pub enum Ty {
    Int,
    Float,
    Bool,
    Char,
    String,
    Unit,
    Struct(String),
    Union(Vec<Ty>),
    Generic { name: String, param: Box<Ty> },
    Fn { params: Vec<Ty>, ret: Box<Ty> },
    Infer,
    Error,
    Ref { inner: Box<Ty>, is_mut: bool },
}

/// The mathematical content of a [`Ty`]: names as char sequences, lists as sequences.
pub enum TyView {
    Int,
    Float,
    Bool,
    Char,
    String,
    Unit,
    Struct(Seq<char>),
    Union(Seq<TyView>),
    Generic { name: Seq<char>, param: Box<TyView> },
    Fn { params: Seq<TyView>, ret: Box<TyView> },
    Infer,
    Error,
    Ref { inner: Box<TyView>, is_mut: bool },
}

impl Ty {
    /// The views of a sequence of types.
    pub open spec fn views(s: Seq<Ty>) -> Seq<TyView>
        decreases s,
    {
        if s.len() == 0 {
            Seq::empty()
        } else {
            Ty::views(s.drop_last()).push(s.last().view_rec())
        }
    }

    pub open spec fn view_rec(&self) -> TyView
        decreases self,
    {
        match self {
            Ty::Int => TyView::Int,
            Ty::Float => TyView::Float,
            Ty::Bool => TyView::Bool,
            Ty::Char => TyView::Char,
            Ty::String => TyView::String,
            Ty::Unit => TyView::Unit,
            Ty::Struct(s) => TyView::Struct(s@),
            Ty::Union(v) => TyView::Union(Ty::views(v@)),
            Ty::Generic { name, param } => TyView::Generic { name: name@, param: Box::new(param.view_rec()) },
            Ty::Fn { params, ret } => TyView::Fn { params: Ty::views(params@), ret: Box::new(ret.view_rec()) },
            Ty::Infer => TyView::Infer,
            Ty::Error => TyView::Error,
            Ty::Ref { inner, is_mut } => TyView::Ref { inner: Box::new(inner.view_rec()), is_mut: *is_mut },
        }
    }
}

impl View for Ty {
    type V = TyView;

    open spec fn view(&self) -> TyView {
        self.view_rec()
    }
}

impl Ty {
    /// A copy of the type.
    pub fn duplicate(&self) -> (r: Ty)
        ensures
            r@ == self@,
        decreases self,
    {
        match self {
            Ty::Int => Ty::Int,
            Ty::Float => Ty::Float,
            Ty::Bool => Ty::Bool,
            Ty::Char => Ty::Char,
            Ty::String => Ty::String,
            Ty::Unit => Ty::Unit,
            Ty::Struct(s) => Ty::Struct(s.clone()),
            Ty::Union(v) => Ty::Union(Ty::duplicate_all(v)),
            Ty::Generic { name, param } => Ty::Generic { name: name.clone(), param: Box::new(param.duplicate()) },
            Ty::Fn { params, ret } => Ty::Fn { params: Ty::duplicate_all(params), ret: Box::new(ret.duplicate()) },
            Ty::Infer => Ty::Infer,
            Ty::Error => Ty::Error,
            Ty::Ref { inner, is_mut } => Ty::Ref { inner: Box::new(inner.duplicate()), is_mut: *is_mut },
        }
    }

    /// Copies of the types of `v`, in order.
    pub fn duplicate_all(v: &Vec<Ty>) -> (r: Vec<Ty>)
        ensures
            Ty::views(r@) == Ty::views(v@),
        decreases v,
    {
        let mut r: Vec<Ty> = Vec::new();
        let mut i: usize = 0;
        while i < v.len()
            invariant
                i <= v.len(),
                Ty::views(r@) == Ty::views(v@.subrange(0, i as int)),
            decreases v.len() - i,
        {
            proof {
                assert(decreases_to!(v => v[i as int]));
            }
            let t = v[i].duplicate();
            let ghost before = r@;
            r.push(t);
            proof {
                let sub = v@.subrange(0, i + 1);
                assert(sub.drop_last() == v@.subrange(0, i as int));
                assert(r@.drop_last() == before);
            }
            i = i + 1;
        }
        proof {
            assert(v@.subrange(0, v.len() as int) == v@);
        }
        r
    }
}

/// The views of a sequence of types line up with the sequence.
pub proof fn lemma_views(s: Seq<Ty>)
    ensures
        Ty::views(s).len() == s.len(),
        forall|i: int| 0 <= i < s.len() ==> #[trigger] Ty::views(s)[i] == s[i]@,
    decreases s.len(),
{
    if s.len() > 0 {
        lemma_views(s.drop_last());
        assert forall|i: int| 0 <= i < s.len() implies #[trigger] Ty::views(s)[i] == s[i]@ by {
            if i < s.len() - 1 {
                assert(s.drop_last()[i] == s[i]);
            }
        }
    }
}

/// Whether two types are the same type.
pub fn ty_eq(a: &Ty, b: &Ty) -> (r: bool)
    ensures
        r == (a@ == b@),
    decreases a,
{
    match a {
        Ty::Int => matches!(b, Ty::Int),
        Ty::Float => matches!(b, Ty::Float),
        Ty::Bool => matches!(b, Ty::Bool),
        Ty::Char => matches!(b, Ty::Char),
        Ty::String => matches!(b, Ty::String),
        Ty::Unit => matches!(b, Ty::Unit),
        Ty::Infer => matches!(b, Ty::Infer),
        Ty::Error => matches!(b, Ty::Error),
        Ty::Struct(x) => match b {
            Ty::Struct(y) => x.eq(y),
            _ => false,
        },
        Ty::Union(x) => match b {
            Ty::Union(y) => tys_eq(x, y),
            _ => false,
        },
        Ty::Generic { name: n1, param: p1 } => match b {
            Ty::Generic { name: n2, param: p2 } => n1.eq(n2) && ty_eq(p1, p2),
            _ => false,
        },
        Ty::Fn { params: p1, ret: r1 } => match b {
            Ty::Fn { params: p2, ret: r2 } => tys_eq(p1, p2) && ty_eq(r1, r2),
            _ => false,
        },
        Ty::Ref { inner: i1, is_mut: m1 } => match b {
            Ty::Ref { inner: i2, is_mut: m2 } => *m1 == *m2 && ty_eq(i1, i2),
            _ => false,
        },
    }
}

/// Whether two lists of types are the same, type by type.
pub fn tys_eq(a: &Vec<Ty>, b: &Vec<Ty>) -> (r: bool)
    ensures
        r == (Ty::views(a@) == Ty::views(b@)),
    decreases a,
{
    proof {
        lemma_views(a@);
        lemma_views(b@);
    }
    if a.len() != b.len() {
        return false;
    }
    let mut i: usize = 0;
    while i < a.len()
        invariant
            i <= a.len(),
            a.len() == b.len(),
            Ty::views(a@).len() == a.len(),
            Ty::views(b@).len() == b.len(),
            forall|k: int| 0 <= k < a.len() ==> #[trigger] Ty::views(a@)[k] == a@[k]@,
            forall|k: int| 0 <= k < b.len() ==> #[trigger] Ty::views(b@)[k] == b@[k]@,
            forall|k: int| 0 <= k < i ==> a@[k]@ == b@[k]@,
        decreases a.len() - i,
    {
        proof {
            assert(decreases_to!(a => a[i as int]));
        }
        if !ty_eq(&a[i], &b[i]) {
            assert(Ty::views(a@)[i as int] != Ty::views(b@)[i as int]);
            return false;
        }
        i = i + 1;
    }
    assert(Ty::views(a@) =~= Ty::views(b@));
    true
}

/// `items` written one after another with `sep` between them.
pub open spec fn join(items: Seq<Seq<char>>, sep: Seq<char>) -> Seq<char>
    decreases items.len(),
{
    if items.len() == 0 {
        Seq::empty()
    } else if items.len() == 1 {
        items[0]
    } else {
        join(items.drop_last(), sep) + sep + items.last()
    }
}

/// The text that `{:?}` writes for a type.
pub open spec fn debug_text(t: TyView) -> Seq<char>
    decreases t,
{
    match t {
        TyView::Int => "Int"@,
        TyView::Float => "Float"@,
        TyView::Bool => "Bool"@,
        TyView::Char => "Char"@,
        TyView::String => "String"@,
        TyView::Unit => "Unit"@,
        TyView::Struct(s) => "Struct("@ + debug_quoted(s) + ")"@,
        TyView::Union(v) => "Union(["@ + join(debug_texts(v), ", "@) + "])"@,
        TyView::Generic { name, param } => "Generic { name: "@ + debug_quoted(name) + ", param: "@ + debug_text(*param)
            + " }"@,
        TyView::Fn { params, ret } => "Fn { params: ["@ + join(debug_texts(params), ", "@) + "], ret: "@ + debug_text(
            *ret,
        ) + " }"@,
        TyView::Infer => "Infer"@,
        TyView::Error => "Error"@,
        TyView::Ref { inner, is_mut } => "Ref { inner: "@ + debug_text(*inner) + ", is_mut: "@ + (if is_mut {
            "true"@
        } else {
            "false"@
        }) + " }"@,
    }
}

pub open spec fn debug_texts(s: Seq<TyView>) -> Seq<Seq<char>>
    decreases s,
{
    if s.len() == 0 {
        Seq::empty()
    } else {
        debug_texts(s.drop_last()).push(debug_text(s.last()))
    }
}

impl Ty {
    /// The text that `{:?}` writes for the type.
    pub fn debug(&self) -> (r: String)
        ensures
            r@ == debug_text(self@),
        decreases self,
    {
        proof {
            reveal_strlit("Int");
            reveal_strlit("Float");
            reveal_strlit("Bool");
            reveal_strlit("Char");
            reveal_strlit("String");
            reveal_strlit("Unit");
            reveal_strlit("Infer");
            reveal_strlit("Error");
        }
        match self {
            Ty::Int => string_from("Int"),
            Ty::Float => string_from("Float"),
            Ty::Bool => string_from("Bool"),
            Ty::Char => string_from("Char"),
            Ty::String => string_from("String"),
            Ty::Unit => string_from("Unit"),
            Ty::Infer => string_from("Infer"),
            Ty::Error => string_from("Error"),
            Ty::Struct(s) => {
                let mut r = string_from("Struct(");
                let q = str_debug(s.as_str());
                string_push_str(&mut r, q.as_str());
                string_push_str(&mut r, ")");
                proof {
                    reveal_strlit("Struct(");
                    reveal_strlit(")");
                }
                r
            },
            Ty::Union(v) => {
                let mut r = string_from("Union([");
                let items = Ty::debug_list(v);
                string_push_str(&mut r, items.as_str());
                string_push_str(&mut r, "])");
                proof {
                    reveal_strlit("Union([");
                    reveal_strlit("])");
                }
                r
            },
            Ty::Generic { name, param } => {
                let mut r = string_from("Generic { name: ");
                let q = str_debug(name.as_str());
                string_push_str(&mut r, q.as_str());
                string_push_str(&mut r, ", param: ");
                let p = param.debug();
                string_push_str(&mut r, p.as_str());
                string_push_str(&mut r, " }");
                proof {
                    reveal_strlit("Generic { name: ");
                    reveal_strlit(", param: ");
                    reveal_strlit(" }");
                }
                r
            },
            Ty::Fn { params, ret } => {
                let mut r = string_from("Fn { params: [");
                let items = Ty::debug_list(params);
                string_push_str(&mut r, items.as_str());
                string_push_str(&mut r, "], ret: ");
                let t = ret.debug();
                string_push_str(&mut r, t.as_str());
                string_push_str(&mut r, " }");
                proof {
                    reveal_strlit("Fn { params: [");
                    reveal_strlit("], ret: ");
                    reveal_strlit(" }");
                }
                r
            },
            Ty::Ref { inner, is_mut } => {
                let mut r = string_from("Ref { inner: ");
                let t = inner.debug();
                string_push_str(&mut r, t.as_str());
                string_push_str(&mut r, ", is_mut: ");
                if *is_mut {
                    string_push_str(&mut r, "true");
                } else {
                    string_push_str(&mut r, "false");
                }
                string_push_str(&mut r, " }");
                proof {
                    reveal_strlit("Ref { inner: ");
                    reveal_strlit(", is_mut: ");
                    reveal_strlit("true");
                    reveal_strlit("false");
                    reveal_strlit(" }");
                }
                r
            },
        }
    }

    /// The `{:?}` texts of the types of `v`, joined by `, `.
    pub fn debug_list(v: &Vec<Ty>) -> (r: String)
        ensures
            r@ == join(debug_texts(Ty::views(v@)), ", "@),
        decreases v,
    {
        proof {
            reveal_strlit(", ");
        }
        let mut r = String::new();
        let mut i: usize = 0;
        while i < v.len()
            invariant
                i <= v.len(),
                r@ == join(debug_texts(Ty::views(v@.subrange(0, i as int))), ", "@),
                ", "@ == seq![',', ' '],
            decreases v.len() - i,
        {
            proof {
                assert(decreases_to!(v => v[i as int]));
            }
            if i > 0 {
                string_push_str(&mut r, ", ");
            }
            let t = v[i].debug();
            string_push_str(&mut r, t.as_str());
            proof {
                let prev = v@.subrange(0, i as int);
                let cur = v@.subrange(0, i + 1);
                assert(cur.drop_last() == prev);
                lemma_views(cur);
                lemma_views(prev);
                assert(Ty::views(cur).drop_last() == Ty::views(prev));
                assert(debug_texts(Ty::views(cur)).drop_last() == debug_texts(Ty::views(prev)));
                lemma_debug_texts_len(Ty::views(prev));
            }
            i = i + 1;
        }
        proof {
            assert(v@.subrange(0, v.len() as int) == v@);
        }
        r
    }
}

pub proof fn lemma_debug_texts_len(s: Seq<TyView>)
    ensures
        debug_texts(s).len() == s.len(),
    decreases s.len(),
{
    if s.len() > 0 {
        lemma_debug_texts_len(s.drop_last());
    }
}

/// The text that `{}` writes for a type, as the checker's messages show it.
pub open spec fn display_text(t: TyView) -> Seq<char>
    decreases t,
{
    match t {
        TyView::Int => "int"@,
        TyView::Float => "float"@,
        TyView::Bool => "bool"@,
        TyView::String => "string"@,
        TyView::Struct(s) => s,
        TyView::Unit => "void"@,
        TyView::Ref { inner, is_mut } => (if is_mut {
            "&var "@
        } else {
            "&"@
        }) + display_text(*inner),
        TyView::Fn { params, ret } => "func("@ + join(display_texts(params), ", "@) + ") ["@ + display_text(*ret) + "]"@,
        TyView::Union(v) => join(display_texts(v), " | "@),
        TyView::Infer => "<infer>"@,
        TyView::Error => "<error>"@,
        _ => debug_text(t),
    }
}

pub open spec fn display_texts(s: Seq<TyView>) -> Seq<Seq<char>>
    decreases s,
{
    if s.len() == 0 {
        Seq::empty()
    } else {
        display_texts(s.drop_last()).push(display_text(s.last()))
    }
}

pub proof fn lemma_display_texts_len(s: Seq<TyView>)
    ensures
        display_texts(s).len() == s.len(),
    decreases s.len(),
{
    if s.len() > 0 {
        lemma_display_texts_len(s.drop_last());
    }
}

impl Ty {
    /// The text that `{}` writes for the type.
    pub fn text(&self) -> (r: String)
        ensures
            r@ == display_text(self@),
        decreases self,
    {
        proof {
            reveal_strlit("int");
            reveal_strlit("float");
            reveal_strlit("bool");
            reveal_strlit("string");
            reveal_strlit("void");
            reveal_strlit("<infer>");
            reveal_strlit("<error>");
            reveal_strlit("&var ");
            reveal_strlit("&");
            reveal_strlit("func(");
            reveal_strlit(") [");
            reveal_strlit("]");
            reveal_strlit(", ");
            reveal_strlit(" | ");
        }
        match self {
            Ty::Int => string_from("int"),
            Ty::Float => string_from("float"),
            Ty::Bool => string_from("bool"),
            Ty::String => string_from("string"),
            Ty::Struct(s) => s.clone(),
            Ty::Unit => string_from("void"),
            Ty::Ref { inner, is_mut } => {
                let mut r = if *is_mut {
                    string_from("&var ")
                } else {
                    string_from("&")
                };
                let t = inner.text();
                string_push_str(&mut r, t.as_str());
                r
            },
            Ty::Fn { params, ret } => {
                let mut r = string_from("func(");
                let p = Ty::text_list(params, ", ");
                string_push_str(&mut r, p.as_str());
                string_push_str(&mut r, ") [");
                let t = ret.text();
                string_push_str(&mut r, t.as_str());
                string_push_str(&mut r, "]");
                r
            },
            Ty::Union(v) => Ty::text_list(v, " | "),
            Ty::Infer => string_from("<infer>"),
            Ty::Error => string_from("<error>"),
            _ => self.debug(),
        }
    }

    /// The `{}` texts of the types of `v`, joined by `sep`.
    pub fn text_list(v: &Vec<Ty>, sep: &str) -> (r: String)
        ensures
            r@ == join(display_texts(Ty::views(v@)), sep@),
        decreases v,
    {
        let mut r = String::new();
        let mut i: usize = 0;
        while i < v.len()
            invariant
                i <= v.len(),
                r@ == join(display_texts(Ty::views(v@.subrange(0, i as int))), sep@),
            decreases v.len() - i,
        {
            proof {
                assert(decreases_to!(v => v[i as int]));
            }
            if i > 0 {
                string_push_str(&mut r, sep);
            }
            let t = v[i].text();
            string_push_str(&mut r, t.as_str());
            proof {
                let prev = v@.subrange(0, i as int);
                let cur = v@.subrange(0, i + 1);
                assert(cur.drop_last() == prev);
                lemma_views(cur);
                lemma_views(prev);
                assert(Ty::views(cur).drop_last() == Ty::views(prev));
                assert(display_texts(Ty::views(cur)).drop_last() == display_texts(Ty::views(prev)));
                lemma_display_texts_len(Ty::views(prev));
            }
            i = i + 1;
        }
        proof {
            assert(v@.subrange(0, v.len() as int) == v@);
        }
        r
    }
}

} // verus!
