//! Name tables: lists of named entries in which each name occurs once, read
//! as maps from names to the entries' views.
use vstd::prelude::*;

verus! {

/// One named entry of a table.
#[derive(Debug, PartialEq)]
pub struct Entry<V> {
    pub name: String,
    pub value: V,
}

/// The map a list of entries denotes, later entries hiding earlier ones.
pub open spec fn table_map<V: View>(s: Seq<Entry<V>>) -> Map<Seq<char>, V::V>
    decreases s.len(),
{
    if s.len() == 0 {
        Map::empty()
    } else {
        table_map(s.drop_last()).insert(s.last().name@, s.last().value@)
    }
}

/// No name occurs twice in the list.
pub open spec fn unique_names<V>(s: Seq<Entry<V>>) -> bool {
    forall|i: int, j: int| 0 <= i < j < s.len() ==> s[i].name@ != s[j].name@
}

/// In a list without repeated names, the map holds exactly the listed names,
/// each with the value of its entry.
pub proof fn lemma_table_map<V: View>(s: Seq<Entry<V>>)
    requires
        unique_names(s),
    ensures
        forall|k: Seq<char>| #[trigger]
            table_map(s).contains_key(k) <==> exists|i: int| 0 <= i < s.len() && s[i].name@ == k,
        forall|i: int| 0 <= i < s.len() ==> #[trigger] table_map(s)[s[i].name@] == s[i].value@,
    decreases s.len(),
{
    if s.len() > 0 {
        let t = s.drop_last();
        let last = s.last();
        assert(unique_names(t));
        lemma_table_map(t);
        assert forall|k: Seq<char>| #[trigger]
            table_map(s).contains_key(k) <==> exists|i: int| 0 <= i < s.len() && s[i].name@ == k by {
            if table_map(s).contains_key(k) {
                if k == last.name@ {
                    assert(s[s.len() - 1].name@ == k);
                } else {
                    assert(table_map(t).contains_key(k));
                    let i = choose|i: int| 0 <= i < t.len() && t[i].name@ == k;
                    assert(s[i] == t[i]);
                }
            }
            if exists|i: int| 0 <= i < s.len() && s[i].name@ == k {
                let i = choose|i: int| 0 <= i < s.len() && s[i].name@ == k;
                if i < s.len() - 1 {
                    assert(t[i] == s[i]);
                    assert(t[i].name@ == k);
                    assert(table_map(t).contains_key(k));
                }
            }
        }
        assert forall|i: int| 0 <= i < s.len() implies #[trigger] table_map(s)[s[i].name@] == s[i].value@ by {
            if i < s.len() - 1 {
                assert(t[i] == s[i]);
                assert(s[i].name@ != last.name@);
                assert(table_map(t)[t[i].name@] == t[i].value@);
            }
        }
    }
}

/// The index of the entry named `name`, if there is one.
pub fn find_entry<V: View>(s: &Vec<Entry<V>>, name: &String) -> (r: Option<usize>)
    requires
        unique_names(s@),
    ensures
        r is None ==> !table_map(s@).contains_key(name@),
        r matches Some(i) ==> i < s.len() && s@[i as int].name@ == name@ && table_map(s@).contains_key(name@)
            && table_map(s@)[name@] == s@[i as int].value@,
{
    let mut i: usize = 0;
    while i < s.len()
        invariant
            i <= s.len(),
            unique_names(s@),
            forall|k: int| 0 <= k < i ==> s@[k].name@ != name@,
        decreases s.len() - i,
    {
        if s[i].name == *name {
            proof {
                lemma_table_map(s@);
                assert(s@[i as int].name@ == name@);
                assert(table_map(s@).contains_key(name@));
                assert(table_map(s@)[s@[i as int].name@] == s@[i as int].value@);
            }
            return Some(i);
        }
        i = i + 1;
    }
    proof {
        lemma_table_map(s@);
    }
    None
}

/// Appends an entry whose name the list does not hold yet.
pub fn push_new_entry<V: View>(s: &mut Vec<Entry<V>>, name: String, value: V)
    requires
        unique_names(old(s)@),
        !table_map(old(s)@).contains_key(name@),
    ensures
        unique_names(final(s)@),
        table_map(final(s)@) == table_map(old(s)@).insert(name@, value@),
        final(s)@.len() == old(s)@.len() + 1,
{
    let ghost old_s = s@;
    let ghost k = name@;
    let ghost v = value@;
    proof {
        lemma_table_map(old_s);
    }
    s.push(Entry { name, value });
    assert(s@.drop_last() == old_s);
    assert forall|a: int, b: int| 0 <= a < b < s@.len() implies s@[a].name@ != s@[b].name@ by {
        assert(s@[a] == old_s[a]);
        if b < old_s.len() {
            assert(s@[b] == old_s[b]);
        } else {
            assert(!table_map(old_s).contains_key(k));
        }
    }
}

/// Binds `name` to `value`, replacing the entry already named so.
pub fn insert_entry<V: View>(s: &mut Vec<Entry<V>>, name: String, value: V)
    requires
        unique_names(old(s)@),
    ensures
        unique_names(final(s)@),
        table_map(final(s)@) == table_map(old(s)@).insert(name@, value@),
{
    match find_entry(s, &name) {
        None => push_new_entry(s, name, value),
        Some(i) => {
            let ghost old_s = s@;
            let ghost k = name@;
            let ghost v = value@;
            let _ = s.remove(i);
            s.insert(i, Entry { name, value });
            proof {
                assert(s@ =~= old_s.update(i as int, s@[i as int]));
                lemma_table_map(old_s);
                assert forall|a: int, b: int| 0 <= a < b < s@.len() implies s@[a].name@ != s@[b].name@ by {
                    if a != i && b != i {
                        assert(s@[a] == old_s[a]);
                        assert(s@[b] == old_s[b]);
                    } else if a == i {
                        assert(s@[b] == old_s[b]);
                    } else {
                        assert(s@[a] == old_s[a]);
                    }
                }
                lemma_table_map(s@);
                assert forall|key: Seq<char>| #[trigger] table_map(s@).contains_key(key)
                    <==> table_map(old_s).insert(k, v).contains_key(key) by {
                    if table_map(s@).contains_key(key) {
                        let j = choose|j: int| 0 <= j < s@.len() && s@[j].name@ == key;
                        if j != i {
                            assert(s@[j] == old_s[j]);
                        }
                    }
                    if table_map(old_s).contains_key(key) {
                        let j = choose|j: int| 0 <= j < old_s.len() && old_s[j].name@ == key;
                        if j != i {
                            assert(s@[j] == old_s[j]);
                        } else {
                            assert(s@[j].name@ == key);
                        }
                    }
                    if key == k {
                        assert(s@[i as int].name@ == key);
                    }
                }
                assert forall|key: Seq<char>| #[trigger] table_map(s@).contains_key(key) implies table_map(s@)[key]
                    == table_map(old_s).insert(k, v)[key] by {
                    let j = choose|j: int| 0 <= j < s@.len() && s@[j].name@ == key;
                    if j != i {
                        assert(s@[j] == old_s[j]);
                        assert(table_map(old_s)[old_s[j].name@] == old_s[j].value@);
                    }
                }
                assert(table_map(s@) =~= table_map(old_s).insert(k, v));
            }
        },
    }
}

} // verus!
