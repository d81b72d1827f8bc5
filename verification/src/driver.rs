//! The parts of the build driver that decide: which declarations an import
//! brings in, and how imported declarations are merged.
use vstd::prelude::*;

use crate::parser::program::ImportItem;
use crate::parser::statement::Statement;
use crate::text::{chars_of, string_from_chars};

verus! {

/// The name a declaration introduces: of a function, extern function,
/// constant or struct.
pub open spec fn declared_name(st: Statement) -> Option<Seq<char>> {
    match st {
        Statement::Func { name, .. } => Some(name@),
        Statement::ExternFunc { name, .. } => Some(name@),
        Statement::Const { name, .. } => Some(name@),
        Statement::Struct { name, .. } => Some(name@),
        _ => None,
    }
}

/// Whether a selective import of `symbols` keeps the declaration: extern
/// functions always, functions, constants and structs when named.
pub open spec fn is_kept(st: Statement, symbols: Seq<String>) -> bool {
    match st {
        Statement::ExternFunc { .. } => true,
        Statement::Func { name, .. } => exists|i: int| 0 <= i < symbols.len() && symbols[i]@ == name@,
        Statement::Const { name, .. } => exists|i: int| 0 <= i < symbols.len() && symbols[i]@ == name@,
        Statement::Struct { name, .. } => exists|i: int| 0 <= i < symbols.len() && symbols[i]@ == name@,
        _ => false,
    }
}

/// The declarations of `s` that a selective import of `symbols` keeps, in order.
pub open spec fn kept_decls(s: Seq<Statement>, symbols: Seq<String>) -> Seq<Statement>
    decreases s.len(),
{
    if s.len() == 0 {
        Seq::empty()
    } else if is_kept(s.last(), symbols) {
        kept_decls(s.drop_last(), symbols).push(s.last())
    } else {
        kept_decls(s.drop_last(), symbols)
    }
}

/// Whether `symbols` names `name`.
fn names(symbols: &[String], name: &String) -> (r: bool)
    ensures
        r == exists|i: int| 0 <= i < symbols@.len() && symbols@[i]@ == name@,
{
    let mut i: usize = 0;
    while i < symbols.len()
        invariant
            i <= symbols.len(),
            forall|k: int| 0 <= k < i ==> symbols@[k]@ != name@,
        decreases symbols.len() - i,
    {
        if symbols[i] == *name {
            return true;
        }
        i = i + 1;
    }
    false
}

/// The declarations an import keeps: all of them when it names no
/// symbols, else the extern functions and the functions, constants and
/// structs it names.
pub fn filter_declarations(declarations: Vec<Statement>, symbols: &[String]) -> (r: Vec<Statement>)
    ensures
        symbols@.len() == 0 ==> r@ == declarations@,
        symbols@.len() > 0 ==> r@ == kept_decls(declarations@, symbols@),
{
    if symbols.len() == 0 {
        return declarations;
    }
    let ghost all = declarations@;
    let mut out: Vec<Statement> = Vec::new();
    for stmt in it: declarations
        invariant
            it.seq() == all,
            out@ == kept_decls(all.take(it.index() as int), symbols@),
    {
        let ghost k = it.index();
        proof {
            assert(all.take(k + 1).drop_last() == all.take(k as int));
            assert(all.take(k + 1).last() == stmt);
        }
        let keep = match &stmt {
            Statement::ExternFunc { .. } => true,
            Statement::Func { name, .. } => names(symbols, name),
            Statement::Const { name, .. } => names(symbols, name),
            Statement::Struct { name, .. } => names(symbols, name),
            _ => false,
        };
        if keep {
            out.push(stmt);
        }
    }
    proof {
        assert(all.take(all.len() as int) == all);
    }
    out
}

/// The index of the last `.` in `s`, if there is one.
pub open spec fn last_dot(s: Seq<char>) -> Option<int>
    decreases s.len(),
{
    if s.len() == 0 {
        None
    } else if s.last() == '.' {
        Some(s.len() - 1)
    } else {
        last_dot(s.drop_last())
    }
}

pub proof fn lemma_last_dot(s: Seq<char>)
    ensures
        last_dot(s) matches Some(k) ==> 0 <= k < s.len() && s[k] == '.' && forall|j: int| k < j < s.len() ==> s[j]
            != '.',
        last_dot(s) is None ==> forall|j: int| 0 <= j < s.len() ==> s[j] != '.',
    decreases s.len(),
{
    if s.len() > 0 && s.last() != '.' {
        lemma_last_dot(s.drop_last());
        assert(forall|j: int| 0 <= j < s.len() - 1 ==> s.drop_last()[j] == s[j]);
    }
}

/// The module an import loads and the symbols it selects. `import a.b`
/// without a symbol list loads the module `a` and selects `b`; otherwise
/// the module is the whole path and the symbols are the listed ones.
pub fn import_target(item: &ImportItem) -> (r: (String, Vec<String>))
    ensures
        (item.symbols@.len() == 0 && last_dot(item.module@) is Some) ==> {
            let k = last_dot(item.module@)->0;
            &&& r.0@ == item.module@.take(k)
            &&& r.1@.len() == 1
            &&& r.1@[0]@ == item.module@.skip(k + 1)
        },
        !(item.symbols@.len() == 0 && last_dot(item.module@) is Some) ==> r.0@ == item.module@ && r.1@
            == item.symbols@,
{
    let chars = chars_of(item.module.as_str());
    proof {
        lemma_last_dot(chars@);
    }
    let mut dot: Option<usize> = None;
    let mut i: usize = chars.len();
    while i > 0
        invariant
            i <= chars.len(),
            chars@ == item.module@,
            dot is None ==> forall|j: int| i <= j < chars.len() ==> chars@[j] != '.',
            dot matches Some(k) ==> k < chars.len() && chars@[k as int] == '.' && forall|j: int| k < j < chars.len()
                ==> chars@[j] != '.',
        decreases i,
    {
        i = i - 1;
        if chars[i] == '.' && dot.is_none() {
            dot = Some(i);
        }
    }
    proof {
        lemma_last_dot(chars@);
        if let Some(k) = dot {
            if let Some(m) = last_dot(chars@) {
                assert(k == m);
            }
        } else {
            if let Some(m) = last_dot(chars@) {
                assert(chars@[m] == '.');
            }
        }
    }
    match dot {
        Some(k) => {
            if item.symbols.len() == 0 {
                let module_chars = chars_subrange(&chars, 0, k);
                let symbol_chars = chars_subrange(&chars, k + 1, chars.len());
                let module = string_from_chars(&module_chars);
                let mut symbols: Vec<String> = Vec::new();
                symbols.push(string_from_chars(&symbol_chars));
                assert(chars@.subrange(0, k as int) =~= chars@.take(k as int));
                assert(chars@.subrange(k + 1, chars.len() as int) =~= chars@.skip(k + 1));
                return (module, symbols);
            }
        },
        None => {},
    }
    (item.module.clone(), item.symbols.clone())
}

/// The chars of `v` from `lo` up to `hi`.
fn chars_subrange(v: &Vec<char>, lo: usize, hi: usize) -> (r: Vec<char>)
    requires
        lo <= hi <= v.len(),
    ensures
        r@ == v@.subrange(lo as int, hi as int),
{
    let mut r: Vec<char> = Vec::new();
    let mut i: usize = lo;
    while i < hi
        invariant
            lo <= i <= hi <= v.len(),
            r@ == v@.subrange(lo as int, i as int),
        decreases hi - i,
    {
        r.push(v[i]);
        assert(v@.subrange(lo as int, i + 1) =~= v@.subrange(lo as int, i as int).push(v@[i as int]));
        i = i + 1;
    }
    r
}

/// The declarations `all` holds after adding `decls`: each function,
/// extern function, constant or struct whose name was not seen yet (the
/// name is then seen); every other declaration.
pub open spec fn merged(all: Seq<Statement>, seen: Set<Seq<char>>, decls: Seq<Statement>) -> (Seq<Statement>, Set<
    Seq<char>,
>)
    decreases decls.len(),
{
    if decls.len() == 0 {
        (all, seen)
    } else {
        let (a, s) = merged(all, seen, decls.drop_last());
        match declared_name(decls.last()) {
            Some(n) => if s.contains(n) {
                (a, s)
            } else {
                (a.push(decls.last()), s.insert(n))
            },
            None => (a.push(decls.last()), s),
        }
    }
}

/// Merging imported declarations adds a function, extern function,
/// constant or struct only under a name neither seen before nor added
/// before: the named declarations it appends have pairwise different names,
/// none of them in `seen`, and all of them seen afterwards; what `all` held
/// stays in front, in order.
pub proof fn law_merged_names_unique(all: Seq<Statement>, seen: Set<Seq<char>>, decls: Seq<Statement>)
    ensures
        ({
            let (a, s) = merged(all, seen, decls);
            &&& all.len() <= a.len()
            &&& a.take(all.len() as int) == all
            &&& seen.subset_of(s)
            &&& forall|i: int|
                all.len() <= i < a.len() ==> (declared_name(#[trigger] a[i]) matches Some(n) ==> s.contains(n)
                    && !seen.contains(n))
            &&& forall|i: int, j: int|
                all.len() <= i < j < a.len() && (declared_name(#[trigger] a[i]) is Some) ==> declared_name(a[i])
                    != declared_name(#[trigger] a[j])
        }),
    decreases decls.len(),
{
    if decls.len() > 0 {
        law_merged_names_unique(all, seen, decls.drop_last());
        let (a0, s0) = merged(all, seen, decls.drop_last());
        let (a, s) = merged(all, seen, decls);
        let d = decls.last();
        match declared_name(d) {
            Some(n) => {
                if !s0.contains(n) {
                    assert(a == a0.push(d));
                    assert(a.take(all.len() as int) =~= a0.take(all.len() as int));
                    assert forall|i: int| all.len() <= i < a.len() implies (declared_name(#[trigger] a[i]) matches Some(
                        m,
                    ) ==> s.contains(m) && !seen.contains(m)) by {
                        if i < a0.len() {
                            assert(a[i] == a0[i]);
                        }
                    }
                    assert forall|i: int, j: int|
                        all.len() <= i < j < a.len() && (declared_name(#[trigger] a[i]) is Some) implies declared_name(
                        a[i],
                    ) != declared_name(#[trigger] a[j]) by {
                        assert(a[i] == a0[i]);
                        if j < a0.len() {
                            assert(a[j] == a0[j]);
                        }
                    }
                }
            },
            None => {
                assert(a == a0.push(d));
                assert(a.take(all.len() as int) =~= a0.take(all.len() as int));
                assert forall|i: int| all.len() <= i < a.len() implies (declared_name(#[trigger] a[i]) matches Some(
                    m,
                ) ==> s.contains(m) && !seen.contains(m)) by {
                    if i < a0.len() {
                        assert(a[i] == a0[i]);
                    }
                }
                assert forall|i: int, j: int|
                    all.len() <= i < j < a.len() && (declared_name(#[trigger] a[i]) is Some) implies declared_name(a[i])
                    != declared_name(#[trigger] a[j]) by {
                    assert(a[i] == a0[i]);
                    if j < a0.len() {
                        assert(a[j] == a0[j]);
                    }
                }
            },
        }
    } else {
        assert(all.take(all.len() as int) =~= all);
    }
}

/// A selective import keeps only extern functions and declarations that
/// it names, in their order, and it keeps every extern function.
pub proof fn law_kept_decls(s: Seq<Statement>, symbols: Seq<String>)
    ensures
        forall|i: int| 0 <= i < kept_decls(s, symbols).len() ==> is_kept(#[trigger] kept_decls(s, symbols)[i], symbols),
        forall|i: int|
            0 <= i < s.len() && (#[trigger] s[i] is ExternFunc) ==> kept_decls(s, symbols).contains(s[i]),
        kept_decls(s, symbols).len() <= s.len(),
    decreases s.len(),
{
    if s.len() > 0 {
        law_kept_decls(s.drop_last(), symbols);
        let k0 = kept_decls(s.drop_last(), symbols);
        let k = kept_decls(s, symbols);
        assert forall|i: int| 0 <= i < k.len() implies is_kept(#[trigger] k[i], symbols) by {
            if i < k0.len() {
                assert(k[i] == k0[i]);
            }
        }
        assert forall|i: int| 0 <= i < s.len() && (#[trigger] s[i] is ExternFunc) implies k.contains(s[i]) by {
            if i < s.len() - 1 {
                assert(s.drop_last()[i] == s[i]);
                assert(k0.contains(s[i]));
                let j = choose|j: int| 0 <= j < k0.len() && k0[j] == s[i];
                assert(k[j] == k0[j]);
            } else {
                assert(k.last() == s[i]);
            }
        }
    }
}

/// The set of the names in `v`.
pub open spec fn name_set(v: Seq<String>) -> Set<Seq<char>> {
    Set::new(|n: Seq<char>| exists|i: int| 0 <= i < v.len() && v[i]@ == n)
}

/// Adds imported declarations to `all`, skipping a function, extern
/// function, constant or struct whose name `seen` already holds.
pub fn add_imported_decls(all: &mut Vec<Statement>, seen: &mut Vec<String>, decls: Vec<Statement>)
    ensures
        ({
            let (a, s) = merged(old(all)@, name_set(old(seen)@), decls@);
            final(all)@ == a && name_set(final(seen)@) == s
        }),
{
    let ghost items = decls@;
    let ghost all0 = all@;
    let ghost seen0 = name_set(seen@);
    for stmt in it: decls
        invariant
            it.seq() == items,
            ({
                let (a, s) = merged(all0, seen0, items.take(it.index() as int));
                all@ == a && name_set(seen@) == s
            }),
    {
        let ghost k = it.index();
        proof {
            assert(items.take(k + 1).drop_last() == items.take(k as int));
            assert(items.take(k + 1).last() == stmt);
        }
        let ghost seen_before = seen@;
        let name: Option<String> = match &stmt {
            Statement::Func { name, .. } => Some(name.clone()),
            Statement::ExternFunc { name, .. } => Some(name.clone()),
            Statement::Const { name, .. } => Some(name.clone()),
            Statement::Struct { name, .. } => Some(name.clone()),
            _ => None,
        };
        match name {
            Some(n) => {
                if !names(seen.as_slice(), &n) {
                    seen.push(n);
                    all.push(stmt);
                    proof {
                        assert(name_set(seen@) =~= name_set(seen_before).insert(seen@.last()@)) by {
                            assert forall|x: Seq<char>| name_set(seen@).contains(x) <==> name_set(seen_before).insert(
                                seen@.last()@,
                            ).contains(x) by {
                                if name_set(seen@).contains(x) {
                                    let i = choose|i: int| 0 <= i < seen@.len() && seen@[i]@ == x;
                                    if i < seen_before.len() {
                                        assert(seen@[i] == seen_before[i]);
                                    }
                                }
                                if name_set(seen_before).contains(x) {
                                    let i = choose|i: int| 0 <= i < seen_before.len() && seen_before[i]@ == x;
                                    assert(seen@[i] == seen_before[i]);
                                }
                                if x == seen@.last()@ {
                                    assert(seen@[seen@.len() - 1]@ == x);
                                }
                            }
                        }
                    }
                } else {
                    proof {
                        let i = choose|i: int| 0 <= i < seen@.len() && seen@[i]@ == n@;
                        assert(name_set(seen@).contains(n@));
                    }
                }
            },
            None => {
                all.push(stmt);
            },
        }
    }
    proof {
        assert(items.take(items.len() as int) == items);
    }
}

} // verus!
