//! The type registry of the markup language that describes window trees:
//! structs (with a parent struct and named properties), literals, and the
//! names they are found by.
//!
//! A struct's or literal's full name is `{namespace}name`.  A property is
//! looked up on a struct, then on its parent, and so on.

use vstd::prelude::*;
use crate::text::str_chars;

verus! {

#[derive(Clone, Copy, Debug, PartialEq, Eq, Hash, Structural)]
pub struct XamlStruct(pub usize);

#[derive(Clone, Copy, Debug, PartialEq, Eq, Hash, Structural)]
pub struct XamlLiteral(pub usize);

#[derive(Clone, Copy, Debug, PartialEq, Eq, Hash, Structural)]
pub struct XamlProperty(pub usize);

/// The type of a value in the markup: a struct, a literal, or a reference
/// to a named object.
#[derive(Clone, Copy, Debug, PartialEq, Eq, Hash, Structural)]
pub enum XamlType {
    Struct(XamlStruct),
    Literal(XamlLiteral),
    Ref,
}

struct StructData {
    parent: Option<usize>,
    name: Vec<char>,
    property_names: Vec<(Vec<char>, usize)>,
    content_property: Option<usize>,
    name_property: Option<usize>,
}

struct PropertyData {
    owner: usize,
    name: Vec<char>,
    ty: XamlType,
}

/// A registry of the types of the markup.
pub struct Xaml {
    structs: Vec<StructData>,
    literals: Vec<Vec<char>>,
    properties: Vec<PropertyData>,
    type_names: Vec<(Vec<char>, XamlType)>,
}

/// `{namespace}name`.
pub open spec fn qualified(namespace: Seq<char>, name: Seq<char>) -> Seq<char> {
    seq!['{'] + namespace + seq!['}'] + name
}

/// The value of key `k` in an association list whose keys differ.
pub open spec fn assoc_get<V>(l: Seq<(Seq<char>, V)>, k: Seq<char>) -> Option<V>
    decreases l.len(),
{
    if l.len() == 0 {
        None
    } else if l.last().0 == k {
        Some(l.last().1)
    } else {
        assoc_get(l.drop_last(), k)
    }
}

pub open spec fn keys_differ<V>(l: Seq<(Seq<char>, V)>) -> bool {
    forall|i: int, j: int| 0 <= i < l.len() && 0 <= j < l.len() && i != j ==> l[i].0 != l[j].0
}

pub open spec fn pairs_view<V>(l: Seq<(Vec<char>, V)>) -> Seq<(Seq<char>, V)> {
    l.map_values(|e: (Vec<char>, V)| (e.0@, e.1))
}

pub(crate) fn chars_eq(a: &Vec<char>, b: &Vec<char>) -> (r: bool)
    ensures
        r == (a@ == b@),
{
    if a.len() != b.len() {
        return false;
    }
    let mut i: usize = 0;
    while i < a.len()
        invariant
            i <= a@.len(),
            a@.len() == b@.len(),
            forall|k: int| 0 <= k < i ==> a@[k] == b@[k],
        decreases a@.len() - i,
    {
        if a[i] != b[i] {
            return false;
        }
        i = i + 1;
    }
    proof {
        assert(a@ =~= b@);
    }
    true
}

proof fn lemma_assoc_get_index<V>(l: Seq<(Seq<char>, V)>, k: Seq<char>)
    requires
        keys_differ(l),
    ensures
        assoc_get(l, k) matches Some(v) ==> exists|i: int| 0 <= i < l.len() && l[i] == (k, v),
        assoc_get(l, k) is None ==> forall|i: int| 0 <= i < l.len() ==> l[i].0 != k,
        forall|i: int| 0 <= i < l.len() && l[i].0 == k ==> assoc_get(l, k) == Some(l[i].1),
    decreases l.len(),
{
    if l.len() > 0 {
        let d = l.drop_last();
        let n = l.len() - 1;
        assert(keys_differ(d)) by {
            assert forall|i: int, j: int| 0 <= i < d.len() && 0 <= j < d.len() && i != j implies d[i].0 != d[j].0 by {
                assert(d[i] == l[i] && d[j] == l[j]);
            }
        }
        lemma_assoc_get_index(d, k);
        if l.last().0 != k {
            if let Some(v) = assoc_get(d, k) {
                let i = choose|i: int| 0 <= i < d.len() && d[i] == (k, v);
                assert(l[i] == d[i]);
            }
            assert forall|i: int| 0 <= i < l.len() && l[i].0 == k implies assoc_get(l, k) == Some(l[i].1) by {
                assert(i != n);
                assert(l[i] == d[i]);
            }
            if assoc_get(l, k) is None {
                assert forall|i: int| 0 <= i < l.len() implies l[i].0 != k by {
                    if i < n {
                        assert(l[i] == d[i]);
                    }
                }
            }
        } else {
            assert forall|i: int| 0 <= i < l.len() && l[i].0 == k implies assoc_get(l, k) == Some(l[i].1) by {
                if i != n {
                    assert(l[i].0 != l[n].0);
                }
            }
        }
    }
}

/// Looks `k` up in an association list.
fn assoc_find<V: Copy>(l: &Vec<(Vec<char>, V)>, k: &Vec<char>) -> (r: Option<usize>)
    ensures
        match r {
            Some(i) => i < l@.len() && l@[i as int].0@ == k@,
            None => forall|i: int| 0 <= i < l@.len() ==> #[trigger] l@[i].0@ != k@,
        },
{
    let mut i: usize = 0;
    while i < l.len()
        invariant
            i <= l@.len(),
            forall|j: int| 0 <= j < i ==> #[trigger] l@[j].0@ != k@,
        decreases l@.len() - i,
    {
        if chars_eq(&l[i].0, k) {
            return Some(i);
        }
        i = i + 1;
    }
    None
}

/// Sets `k` to `v` in an association list whose keys differ.
fn assoc_insert<V: Copy>(l: &mut Vec<(Vec<char>, V)>, k: Vec<char>, v: V)
    requires
        keys_differ(pairs_view(old(l)@)),
    ensures
        keys_differ(pairs_view(final(l)@)),
        assoc_get(pairs_view(final(l)@), k@) == Some(v),
        forall|k2: Seq<char>| k2 != k@ ==> #[trigger] assoc_get(pairs_view(final(l)@), k2) == assoc_get(pairs_view(old(l)@), k2),
{
    let ghost before = pairs_view(l@);
    match assoc_find(l, &k) {
        Some(i) => {
            let ghost kk = k@;
            l.set(i, (k, v));
            proof {
                let after = pairs_view(l@);
                assert(after =~= before.update(i as int, (kk, v)));
                assert(keys_differ(after)) by {
                    assert forall|a: int, b: int| 0 <= a < after.len() && 0 <= b < after.len() && a != b
                        implies after[a].0 != after[b].0 by {
                        assert(before[i as int].0 == kk);
                    }
                }
                lemma_assoc_get_index(after, kk);
                assert(after[i as int].0 == kk);
                assert forall|k2: Seq<char>| k2 != kk implies #[trigger] assoc_get(after, k2) == assoc_get(before, k2) by {
                    lemma_assoc_get_index(after, k2);
                    lemma_assoc_get_index(before, k2);
                    if let Some(w) = assoc_get(before, k2) {
                        let j = choose|j: int| 0 <= j < before.len() && before[j] == (k2, w);
                        assert(after[j] == (k2, w));
                    }
                    if let Some(w) = assoc_get(after, k2) {
                        let j = choose|j: int| 0 <= j < after.len() && after[j] == (k2, w);
                        assert(before[j] == (k2, w));
                    }
                }
            }
        },
        None => {
            let ghost kk = k@;
            l.push((k, v));
            proof {
                let after = pairs_view(l@);
                assert(after =~= before.push((kk, v)));
                assert(after.drop_last() =~= before);
                assert(keys_differ(after)) by {
                    assert forall|a: int, b: int| 0 <= a < after.len() && 0 <= b < after.len() && a != b
                        implies after[a].0 != after[b].0 by {
                        if a < before.len() {
                            assert(before[a].0 == pairs_view(old(l)@)[a].0);
                        }
                    }
                }
            }
        },
    }
}

impl Xaml {
    pub closed spec fn struct_count(&self) -> nat {
        self.structs@.len()
    }

    pub closed spec fn property_count(&self) -> nat {
        self.properties@.len()
    }

    pub closed spec fn literal_count(&self) -> nat {
        self.literals@.len()
    }

    pub closed spec fn struct_parent(&self, s: usize) -> Option<usize> {
        self.structs@[s as int].parent
    }

    pub closed spec fn struct_name(&self, s: usize) -> Seq<char> {
        self.structs@[s as int].name@
    }

    /// The property named `name` declared on `s` itself.
    pub closed spec fn own_property(&self, s: usize, name: Seq<char>) -> Option<usize> {
        assoc_get(pairs_view(self.structs@[s as int].property_names@), name)
    }

    pub closed spec fn own_content_property(&self, s: usize) -> Option<usize> {
        self.structs@[s as int].content_property
    }

    pub closed spec fn own_name_property(&self, s: usize) -> Option<usize> {
        self.structs@[s as int].name_property
    }

    pub closed spec fn property_owner(&self, p: usize) -> usize {
        self.properties@[p as int].owner
    }

    pub closed spec fn property_name(&self, p: usize) -> Seq<char> {
        self.properties@[p as int].name@
    }

    pub closed spec fn property_type(&self, p: usize) -> XamlType {
        self.properties@[p as int].ty
    }

    pub closed spec fn literal_name(&self, l: usize) -> Seq<char> {
        self.literals@[l as int]@
    }

    /// The structs in the order they were registered: the parent, the full
    /// name, the content property and the name property of each.
    pub closed spec fn struct_entries(&self) -> Seq<(Option<usize>, Seq<char>, Option<usize>, Option<usize>)> {
        Seq::new(self.structs@.len(), |i: int| (self.structs@[i].parent, self.structs@[i].name@,
            self.structs@[i].content_property, self.structs@[i].name_property))
    }

    /// The properties in the order they were registered: the owner, the
    /// name and the type of each.
    pub closed spec fn property_entries(&self) -> Seq<(usize, Seq<char>, XamlType)> {
        Seq::new(self.properties@.len(), |i: int| (self.properties@[i].owner, self.properties@[i].name@,
            self.properties@[i].ty))
    }

    /// The full names of the literals in the order they were registered.
    pub closed spec fn literal_names(&self) -> Seq<Seq<char>> {
        Seq::new(self.literals@.len(), |i: int| self.literals@[i]@)
    }

    /// The registration lists agree with the counts and the lookups.
    pub proof fn lemma_entries(&self)
        ensures
            self.struct_entries().len() == self.struct_count(),
            self.property_entries().len() == self.property_count(),
            self.literal_names().len() == self.literal_count(),
            forall|s: usize| s < self.struct_count() ==> #[trigger] self.struct_entries()[s as int]
                == (self.struct_parent(s), self.struct_name(s), self.own_content_property(s), self.own_name_property(s)),
            forall|q: usize| q < self.property_count() ==> #[trigger] self.property_entries()[q as int]
                == (self.property_owner(q), self.property_name(q), self.property_type(q)),
            forall|l: usize| l < self.literal_count() ==> #[trigger] self.literal_names()[l as int] == self.literal_name(l),
    {
    }

    /// The type registered under `name`.
    pub closed spec fn type_named(&self, name: Seq<char>) -> Option<XamlType> {
        assoc_get(pairs_view(self.type_names@), name)
    }

    /// Every struct's parent is older than it; names and properties are
    /// distinct; registered names and properties refer to registered
    /// structs and properties.
    pub closed spec fn wf(&self) -> bool {
        &&& forall|s: int| 0 <= s < self.structs@.len() ==> ((#[trigger] self.structs@[s]).parent matches Some(p) ==> p < s)
        &&& forall|s: int| 0 <= s < self.structs@.len() ==> keys_differ(pairs_view((#[trigger] self.structs@[s]).property_names@))
        &&& keys_differ(pairs_view(self.type_names@))
        &&& forall|n: Seq<char>| (#[trigger] assoc_get(pairs_view(self.type_names@), n)) matches Some(XamlType::Struct(t))
            ==> t.0 < self.structs@.len()
        &&& forall|s: int, n: Seq<char>| 0 <= s < self.structs@.len()
            ==> ((#[trigger] assoc_get(pairs_view(self.structs@[s].property_names@), n)) matches Some(p) ==> p < self.properties@.len())
        &&& forall|s: int| 0 <= s < self.structs@.len() ==> ((#[trigger] self.structs@[s]).content_property matches Some(p) ==> p < self.properties@.len())
        &&& forall|s: int| 0 <= s < self.structs@.len() ==> ((#[trigger] self.structs@[s]).name_property matches Some(p) ==> p < self.properties@.len())
    }

    /// What a well-formed registry refers to, it holds.
    pub proof fn lemma_refs(&self)
        requires
            self.wf(),
        ensures
            forall|n: Seq<char>| (#[trigger] self.type_named(n)) matches Some(XamlType::Struct(t)) ==> t.0 < self.struct_count(),
            forall|s: usize, n: Seq<char>| s < self.struct_count() ==> ((#[trigger] self.own_property(s, n)) matches Some(p) ==> p < self.property_count()),
            forall|s: usize| s < self.struct_count() ==> ((#[trigger] self.own_content_property(s)) matches Some(p) ==> p < self.property_count()),
            forall|s: usize| s < self.struct_count() ==> ((#[trigger] self.own_name_property(s)) matches Some(p) ==> p < self.property_count()),
    {
        assert forall|s: usize, n: Seq<char>| s < self.struct_count() implies ((#[trigger] self.own_property(s, n)) matches Some(p) ==> p < self.property_count()) by {
            assert(0 <= s as int);
        }
        assert forall|s: usize| s < self.struct_count() implies ((#[trigger] self.own_content_property(s)) matches Some(p) ==> p < self.property_count()) by {
            assert(self.structs@[s as int].content_property == self.own_content_property(s));
        }
        assert forall|s: usize| s < self.struct_count() implies ((#[trigger] self.own_name_property(s)) matches Some(p) ==> p < self.property_count()) by {
            assert(self.structs@[s as int].name_property == self.own_name_property(s));
        }
    }

    pub fn new() -> (r: Xaml)
        ensures
            r.wf(),
            r.struct_count() == 0,
            r.literal_count() == 0,
            r.property_count() == 0,
            forall|n: Seq<char>| #[trigger] r.type_named(n) is None,
    {
        Xaml { structs: Vec::new(), literals: Vec::new(), properties: Vec::new(), type_names: Vec::new() }
    }

    /// The type registered under `name`.
    pub fn ty(&self, name: &str) -> (r: Option<XamlType>)
        requires
            self.wf(),
        ensures
            r == self.type_named(name@),
    {
        let k = str_chars(name);
        match assoc_find(&self.type_names, &k) {
            Some(i) => {
                proof {
                    lemma_assoc_get_index(pairs_view(self.type_names@), k@);
                    assert(pairs_view(self.type_names@)[i as int].0 == k@);
                }
                Some(self.type_names[i].1)
            },
            None => {
                proof {
                    lemma_assoc_get_index(pairs_view(self.type_names@), k@);
                    if assoc_get(pairs_view(self.type_names@), k@) is Some {
                        let v = assoc_get(pairs_view(self.type_names@), k@)->0;
                        let j = choose|j: int| 0 <= j < pairs_view(self.type_names@).len() && pairs_view(self.type_names@)[j] == (k@, v);
                        assert(self.type_names@[j].0@ != k@);
                    }
                }
                None
            },
        }
    }
}

/// `{namespace}name`, as chars.
fn qualify(namespace: &str, name: &str) -> (r: Vec<char>)
    ensures
        r@ == qualified(namespace@, name@),
{
    let ns = str_chars(namespace);
    let nm = str_chars(name);
    let mut r: Vec<char> = Vec::new();
    r.push('{');
    let mut i: usize = 0;
    while i < ns.len()
        invariant
            i <= ns@.len(),
            r@ == seq!['{'] + ns@.take(i as int),
        decreases ns@.len() - i,
    {
        r.push(ns[i]);
        i = i + 1;
        proof {
            assert(r@ =~= seq!['{'] + ns@.take(i as int));
        }
    }
    r.push('}');
    let mut j: usize = 0;
    proof {
        assert(ns@.take(ns@.len() as int) =~= ns@);
        assert(r@ =~= seq!['{'] + ns@ + seq!['}'] + nm@.take(0));
    }
    while j < nm.len()
        invariant
            j <= nm@.len(),
            r@ == seq!['{'] + ns@ + seq!['}'] + nm@.take(j as int),
        decreases nm@.len() - j,
    {
        r.push(nm[j]);
        j = j + 1;
        proof {
            assert(r@ =~= seq!['{'] + ns@ + seq!['}'] + nm@.take(j as int));
        }
    }
    proof {
        assert(nm@.take(nm@.len() as int) =~= nm@);
    }
    r
}

/// The property named `name` found on `s` or, failing that, on its ancestors.
pub open spec fn find_property(x: Xaml, s: usize, name: Seq<char>) -> Option<usize>
    decreases s,
{
    match x.own_property(s, name) {
        Some(p) => Some(p),
        None => match x.struct_parent(s) {
            Some(q) => if q < s { find_property(x, q, name) } else { None },
            None => None,
        },
    }
}

/// The content (or, `name_kind`, the name) property of `s` or, failing
/// that, of its nearest ancestor that has one.
pub open spec fn find_special(x: Xaml, s: usize, name_kind: bool) -> Option<usize>
    decreases s,
{
    let own = if name_kind { x.own_name_property(s) } else { x.own_content_property(s) };
    match own {
        Some(p) => Some(p),
        None => match x.struct_parent(s) {
            Some(q) => if q < s { find_special(x, q, name_kind) } else { None },
            None => None,
        },
    }
}

/// A property found up the chain of a registered struct is registered.
pub proof fn lemma_find_property_registered(x: Xaml, s: usize, name: Seq<char>)
    requires
        x.wf(),
        s < x.struct_count(),
    ensures
        find_property(x, s, name) matches Some(p) ==> p < x.property_count(),
    decreases s,
{
    x.lemma_refs();
    if x.own_property(s, name) is None {
        if let Some(q) = x.struct_parent(s) {
            if q < s {
                lemma_find_property_registered(x, q, name);
            }
        }
    }
}

/// A content or name property found up the chain of a registered struct is
/// registered.
pub proof fn lemma_find_special_registered(x: Xaml, s: usize, name_kind: bool)
    requires
        x.wf(),
        s < x.struct_count(),
    ensures
        find_special(x, s, name_kind) matches Some(p) ==> p < x.property_count(),
    decreases s,
{
    x.lemma_refs();
    let own = if name_kind { x.own_name_property(s) } else { x.own_content_property(s) };
    if own is None {
        if let Some(q) = x.struct_parent(s) {
            if q < s {
                lemma_find_special_registered(x, q, name_kind);
            }
        }
    }
}

impl XamlStruct {
    /// Registers a struct named `{namespace}name` with an optional parent.
    pub fn new(xaml: &mut Xaml, parent: Option<XamlStruct>, namespace: &str, name: &str) -> (r: XamlStruct)
        requires
            old(xaml).wf(),
            parent matches Some(p) ==> p.0 < old(xaml).struct_count(),
        ensures
            final(xaml).wf(),
            r.0 == old(xaml).struct_count(),
            final(xaml).struct_count() == old(xaml).struct_count() + 1,
            final(xaml).struct_parent(r.0) == (match parent { None => None::<usize>, Some(p) => Some(p.0) }),
            final(xaml).struct_name(r.0) == qualified(namespace@, name@),
            forall|n: Seq<char>| #[trigger] final(xaml).own_property(r.0, n) is None,
            final(xaml).own_content_property(r.0) is None,
            final(xaml).own_name_property(r.0) is None,
            forall|s: usize| s < old(xaml).struct_count() ==> {
                &&& #[trigger] final(xaml).struct_parent(s) == old(xaml).struct_parent(s)
                &&& final(xaml).struct_name(s) == old(xaml).struct_name(s)
                &&& forall|n: Seq<char>| #[trigger] final(xaml).own_property(s, n) == old(xaml).own_property(s, n)
                &&& final(xaml).own_content_property(s) == old(xaml).own_content_property(s)
                &&& final(xaml).own_name_property(s) == old(xaml).own_name_property(s)
            },
            final(xaml).type_named(qualified(namespace@, name@)) == Some(XamlType::Struct(r)),
            final(xaml).struct_entries() == old(xaml).struct_entries().push((match parent { None => None::<usize>, Some(p) => Some(p.0) },
                qualified(namespace@, name@), None::<usize>, None::<usize>)),
            final(xaml).property_entries() == old(xaml).property_entries(),
            final(xaml).literal_names() == old(xaml).literal_names(),
            forall|n: Seq<char>| n != qualified(namespace@, name@) ==> #[trigger] final(xaml).type_named(n) == old(xaml).type_named(n),
            final(xaml).property_count() == old(xaml).property_count(),
            final(xaml).literal_count() == old(xaml).literal_count(),
            forall|p: usize| p < old(xaml).property_count() ==> {
                &&& #[trigger] final(xaml).property_owner(p) == old(xaml).property_owner(p)
                &&& final(xaml).property_name(p) == old(xaml).property_name(p)
                &&& final(xaml).property_type(p) == old(xaml).property_type(p)
            },
    {
        let full = qualify(namespace, name);
        let id = xaml.structs.len();
        let key = qualify(namespace, name);
        xaml.structs.push(StructData {
            parent: match parent { None => None, Some(p) => Some(p.0) },
            name: full,
            property_names: Vec::new(),
            content_property: None,
            name_property: None,
        });
        assoc_insert(&mut xaml.type_names, key, XamlType::Struct(XamlStruct(id)));
        proof {
            assert forall|s: int| 0 <= s < xaml.structs@.len() implies keys_differ(pairs_view((#[trigger] xaml.structs@[s]).property_names@)) by {
                if s < old(xaml).structs@.len() {
                    assert(xaml.structs@[s] == old(xaml).structs@[s]);
                } else {
                    assert(pairs_view(xaml.structs@[s].property_names@) =~= Seq::<(Seq<char>, usize)>::empty());
                }
            }
            assert(pairs_view(xaml.structs@[id as int].property_names@) =~= Seq::<(Seq<char>, usize)>::empty());
            assert(xaml.struct_entries() =~= old(xaml).struct_entries().push((match parent { None => None::<usize>, Some(p) => Some(p.0) },
                qualified(namespace@, name@), None::<usize>, None::<usize>)));
            assert(xaml.property_entries() =~= old(xaml).property_entries());
            assert(xaml.literal_names() =~= old(xaml).literal_names());
        }
        XamlStruct(id)
    }

    pub fn parent(self, xaml: &Xaml) -> (r: Option<XamlStruct>)
        requires
            self.0 < xaml.struct_count(),
        ensures
            r == (match xaml.struct_parent(self.0) { None => None::<XamlStruct>, Some(p) => Some(XamlStruct(p)) }),
    {
        match xaml.structs[self.0].parent {
            None => None,
            Some(p) => Some(XamlStruct(p)),
        }
    }

    pub fn name(self, xaml: &Xaml) -> (r: &Vec<char>)
        requires
            self.0 < xaml.struct_count(),
        ensures
            r@ == xaml.struct_name(self.0),
    {
        &xaml.structs[self.0].name
    }

    /// The property named `name` declared on this struct itself.
    pub fn self_property(self, xaml: &Xaml, name: &str) -> (r: Option<XamlProperty>)
        requires
            xaml.wf(),
            self.0 < xaml.struct_count(),
        ensures
            r == (match xaml.own_property(self.0, name@) { None => None::<XamlProperty>, Some(p) => Some(XamlProperty(p)) }),
    {
        let k = str_chars(name);
        let l = &xaml.structs[self.0].property_names;
        proof {
            assert(keys_differ(pairs_view(xaml.structs@[self.0 as int].property_names@)));
            lemma_assoc_get_index(pairs_view(l@), k@);
        }
        match assoc_find(l, &k) {
            Some(i) => {
                proof {
                    assert(pairs_view(l@)[i as int].0 == k@);
                }
                Some(XamlProperty(l[i].1))
            },
            None => {
                proof {
                    if assoc_get(pairs_view(l@), k@) is Some {
                        let v = assoc_get(pairs_view(l@), k@)->0;
                        let j = choose|j: int| 0 <= j < pairs_view(l@).len() && pairs_view(l@)[j] == (k@, v);
                        assert(l@[j].0@ != k@);
                    }
                }
                None
            },
        }
    }

    /// The property named `name` on this struct or its nearest ancestor that has one.
    pub fn property(self, xaml: &Xaml, name: &str) -> (r: Option<XamlProperty>)
        requires
            xaml.wf(),
            self.0 < xaml.struct_count(),
        ensures
            r == (match find_property(*xaml, self.0, name@) { None => None::<XamlProperty>, Some(p) => Some(XamlProperty(p)) }),
    {
        let mut owner = self;
        loop
            invariant
                xaml.wf(),
                owner.0 < xaml.struct_count(),
                find_property(*xaml, self.0, name@) == find_property(*xaml, owner.0, name@),
            decreases owner.0,
        {
            if let Some(p) = owner.self_property(xaml, name) {
                return Some(p);
            }
            proof {
                assert(xaml.structs@[owner.0 as int].parent matches Some(q) ==> (q < owner.0));
            }
            match owner.parent(xaml) {
                Some(q) => {
                    owner = q;
                },
                None => {
                    return None;
                },
            }
        }
    }

    pub fn self_content_property(self, xaml: &Xaml) -> (r: Option<XamlProperty>)
        requires
            self.0 < xaml.struct_count(),
        ensures
            r == (match xaml.own_content_property(self.0) { None => None::<XamlProperty>, Some(p) => Some(XamlProperty(p)) }),
    {
        match xaml.structs[self.0].content_property {
            None => None,
            Some(p) => Some(XamlProperty(p)),
        }
    }

    pub fn self_name_property(self, xaml: &Xaml) -> (r: Option<XamlProperty>)
        requires
            self.0 < xaml.struct_count(),
        ensures
            r == (match xaml.own_name_property(self.0) { None => None::<XamlProperty>, Some(p) => Some(XamlProperty(p)) }),
    {
        match xaml.structs[self.0].name_property {
            None => None,
            Some(p) => Some(XamlProperty(p)),
        }
    }

    fn special_property(self, xaml: &Xaml, name_kind: bool) -> (r: Option<XamlProperty>)
        requires
            xaml.wf(),
            self.0 < xaml.struct_count(),
        ensures
            r == (match find_special(*xaml, self.0, name_kind) { None => None::<XamlProperty>, Some(p) => Some(XamlProperty(p)) }),
    {
        let mut owner = self;
        loop
            invariant
                xaml.wf(),
                owner.0 < xaml.struct_count(),
                find_special(*xaml, self.0, name_kind) == find_special(*xaml, owner.0, name_kind),
            decreases owner.0,
        {
            let own = if name_kind { owner.self_name_property(xaml) } else { owner.self_content_property(xaml) };
            if let Some(p) = own {
                return Some(p);
            }
            proof {
                assert(xaml.structs@[owner.0 as int].parent matches Some(q) ==> (q < owner.0));
            }
            match owner.parent(xaml) {
                Some(q) => {
                    owner = q;
                },
                None => {
                    return None;
                },
            }
        }
    }

    /// The content property of this struct or of its nearest ancestor that has one.
    pub fn content_property(self, xaml: &Xaml) -> (r: Option<XamlProperty>)
        requires
            xaml.wf(),
            self.0 < xaml.struct_count(),
        ensures
            r == (match find_special(*xaml, self.0, false) { None => None::<XamlProperty>, Some(p) => Some(XamlProperty(p)) }),
    {
        self.special_property(xaml, false)
    }

    /// The name property of this struct or of its nearest ancestor that has one.
    pub fn name_property(self, xaml: &Xaml) -> (r: Option<XamlProperty>)
        requires
            xaml.wf(),
            self.0 < xaml.struct_count(),
        ensures
            r == (match find_special(*xaml, self.0, true) { None => None::<XamlProperty>, Some(p) => Some(XamlProperty(p)) }),
    {
        self.special_property(xaml, true)
    }
}

impl XamlProperty {
    /// Registers a property `name` of type `ty` on `owner`; it may be the
    /// owner's content property or its name property (one of each at most).
    pub fn new(
        xaml: &mut Xaml,
        owner: XamlStruct,
        name: &str,
        ty: XamlType,
        is_content_property: bool,
        is_name_property: bool,
    ) -> (r: XamlProperty)
        requires
            old(xaml).wf(),
            owner.0 < old(xaml).struct_count(),
            is_content_property ==> old(xaml).own_content_property(owner.0) is None,
            is_name_property ==> old(xaml).own_name_property(owner.0) is None,
        ensures
            final(xaml).wf(),
            r.0 == old(xaml).property_count(),
            final(xaml).property_count() == old(xaml).property_count() + 1,
            final(xaml).property_owner(r.0) == owner.0,
            final(xaml).property_name(r.0) == name@,
            final(xaml).property_type(r.0) == ty,
            final(xaml).property_entries() == old(xaml).property_entries().push((owner.0, name@, ty)),
            final(xaml).struct_entries() == old(xaml).struct_entries().update(owner.0 as int, ({
                let e = old(xaml).struct_entries()[owner.0 as int];
                (e.0, e.1, if is_content_property { Some(r.0) } else { e.2 }, if is_name_property { Some(r.0) } else { e.3 })
            })),
            final(xaml).literal_names() == old(xaml).literal_names(),
            final(xaml).own_property(owner.0, name@) == Some(r.0),
            forall|n: Seq<char>| n != name@ ==> #[trigger] final(xaml).own_property(owner.0, n) == old(xaml).own_property(owner.0, n),
            final(xaml).own_content_property(owner.0) == (if is_content_property { Some(r.0) } else { old(xaml).own_content_property(owner.0) }),
            final(xaml).own_name_property(owner.0) == (if is_name_property { Some(r.0) } else { old(xaml).own_name_property(owner.0) }),
            final(xaml).struct_count() == old(xaml).struct_count(),
            forall|s: usize| s < old(xaml).struct_count() ==> #[trigger] final(xaml).struct_parent(s) == old(xaml).struct_parent(s),
            forall|s: usize| s < old(xaml).struct_count() && s != owner.0 ==> {
                &&& #[trigger] final(xaml).struct_name(s) == old(xaml).struct_name(s)
                &&& forall|n: Seq<char>| #[trigger] final(xaml).own_property(s, n) == old(xaml).own_property(s, n)
                &&& final(xaml).own_content_property(s) == old(xaml).own_content_property(s)
                &&& final(xaml).own_name_property(s) == old(xaml).own_name_property(s)
            },
            forall|n: Seq<char>| #[trigger] final(xaml).type_named(n) == old(xaml).type_named(n),
    {
        let id = xaml.properties.len();
        let pname = str_chars(name);
        let key = str_chars(name);
        xaml.properties.push(PropertyData { owner: owner.0, name: pname, ty });
        let mut data = StructData {
            parent: None,
            name: Vec::new(),
            property_names: Vec::new(),
            content_property: None,
            name_property: None,
        };
        xaml.structs.set_and_swap(owner.0, &mut data);
        proof {
            assert(keys_differ(pairs_view(old(xaml).structs@[owner.0 as int].property_names@)));
        }
        assoc_insert(&mut data.property_names, key, id);
        if is_content_property {
            data.content_property = Some(id);
        }
        if is_name_property {
            data.name_property = Some(id);
        }
        xaml.structs.set_and_swap(owner.0, &mut data);
        proof {
            assert forall|s: int| 0 <= s < xaml.structs@.len() implies ((#[trigger] xaml.structs@[s]).parent matches Some(p) ==> p < s) by {
                if s != owner.0 {
                    assert(xaml.structs@[s] == old(xaml).structs@[s]);
                }
            }
            assert forall|s: int| 0 <= s < xaml.structs@.len() implies keys_differ(pairs_view((#[trigger] xaml.structs@[s]).property_names@)) by {
                if s != owner.0 {
                    assert(xaml.structs@[s] == old(xaml).structs@[s]);
                }
            }
            assert(xaml.property_entries() =~= old(xaml).property_entries().push((owner.0, name@, ty)));
            let e = old(xaml).struct_entries()[owner.0 as int];
            assert(xaml.struct_entries() =~= old(xaml).struct_entries().update(owner.0 as int,
                (e.0, e.1, if is_content_property { Some(id) } else { e.2 }, if is_name_property { Some(id) } else { e.3 })));
            assert(xaml.literal_names() =~= old(xaml).literal_names());
        }
        XamlProperty(id)
    }

    pub fn name(self, xaml: &Xaml) -> (r: &Vec<char>)
        requires
            self.0 < xaml.property_count(),
        ensures
            r@ == xaml.property_name(self.0),
    {
        &xaml.properties[self.0].name
    }

    pub fn owner(self, xaml: &Xaml) -> (r: XamlStruct)
        requires
            self.0 < xaml.property_count(),
        ensures
            r.0 == xaml.property_owner(self.0),
    {
        XamlStruct(xaml.properties[self.0].owner)
    }

    pub fn ty(self, xaml: &Xaml) -> (r: XamlType)
        requires
            self.0 < xaml.property_count(),
        ensures
            r == xaml.property_type(self.0),
    {
        xaml.properties[self.0].ty
    }
}

impl XamlLiteral {
    /// Registers a literal type named `{namespace}name`.
    pub fn new(xaml: &mut Xaml, namespace: &str, name: &str) -> (r: XamlLiteral)
        requires
            old(xaml).wf(),
        ensures
            final(xaml).wf(),
            r.0 == old(xaml).literal_count(),
            final(xaml).literal_count() == old(xaml).literal_count() + 1,
            final(xaml).literal_name(r.0) == qualified(namespace@, name@),
            final(xaml).type_named(qualified(namespace@, name@)) == Some(XamlType::Literal(r)),
            final(xaml).literal_names() == old(xaml).literal_names().push(qualified(namespace@, name@)),
            final(xaml).struct_entries() == old(xaml).struct_entries(),
            final(xaml).property_entries() == old(xaml).property_entries(),
            forall|n: Seq<char>| n != qualified(namespace@, name@) ==> #[trigger] final(xaml).type_named(n) == old(xaml).type_named(n),
            final(xaml).struct_count() == old(xaml).struct_count(),
            final(xaml).property_count() == old(xaml).property_count(),
    {
        let id = xaml.literals.len();
        let full = qualify(namespace, name);
        let key = qualify(namespace, name);
        xaml.literals.push(full);
        assoc_insert(&mut xaml.type_names, key, XamlType::Literal(XamlLiteral(id)));
        proof {
            assert(xaml.literal_names() =~= old(xaml).literal_names().push(qualified(namespace@, name@)));
            assert(xaml.struct_entries() =~= old(xaml).struct_entries());
            assert(xaml.property_entries() =~= old(xaml).property_entries());
        }
        XamlLiteral(id)
    }

    pub fn name(self, xaml: &Xaml) -> (r: &Vec<char>)
        requires
            self.0 < xaml.literal_count(),
        ensures
            r@ == xaml.literal_name(self.0),
    {
        &xaml.literals[self.0]
    }
}

/// The full name of an element: `{namespace}local`, or `local` without a
/// namespace.
pub fn element_name(namespace: Option<&str>, local: &str) -> (r: Vec<char>)
    ensures
        r@ == (match namespace {
            Some(ns) => qualified(ns@, local@),
            None => local@,
        }),
{
    match namespace {
        Some(ns) => qualify(ns, local),
        None => str_chars(local),
    }
}

/// An element named `ty_name.Property` inside a struct named `ty_name`
/// sets that struct's property: the part after the dot (never empty).
pub open spec fn property_element_spec(name: Seq<char>, ty_name: Seq<char>) -> Option<Seq<char>> {
    if name.len() >= ty_name.len() + 2 && name.take(ty_name.len() as int) == ty_name && name[ty_name.len() as int] == '.' {
        Some(name.skip(ty_name.len() as int + 1))
    } else {
        None
    }
}

pub fn property_element(name: &Vec<char>, ty_name: &Vec<char>) -> (r: Option<Vec<char>>)
    ensures
        r is Some <==> property_element_spec(name@, ty_name@) is Some,
        r matches Some(p) ==> property_element_spec(name@, ty_name@) == Some(p@),
{
    let n = ty_name.len();
    if name.len() < 2 || name.len() - 2 < n {
        return None;
    }
    let mut i: usize = 0;
    while i < n
        invariant
            i <= n,
            n == ty_name@.len(),
            n + 2 <= name@.len(),
            forall|k: int| 0 <= k < i ==> name@[k] == ty_name@[k],
        decreases n - i,
    {
        if name[i] != ty_name[i] {
            proof {
                assert(name@.take(n as int)[i as int] != ty_name@[i as int]);
            }
            return None;
        }
        i = i + 1;
    }
    proof {
        assert(name@.take(n as int) =~= ty_name@);
    }
    if name[n] != '.' {
        return None;
    }
    let mut p: Vec<char> = Vec::new();
    let mut j: usize = n + 1;
    while j < name.len()
        invariant
            n + 1 <= j <= name@.len(),
            p@ == name@.subrange(n + 1, j as int),
        decreases name@.len() - j,
    {
        p.push(name[j]);
        j = j + 1;
        proof {
            assert(p@ =~= name@.subrange(n + 1, j as int));
        }
    }
    proof {
        assert(p@ =~= name@.skip(n + 1));
    }
    Some(p)
}

} // verus!
