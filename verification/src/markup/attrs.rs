//! A typed attribute builder: no duplicate attributes, every value escaped.
use vstd::prelude::*;
use crate::markup::html::{attr_text, HtmlWriter};
use crate::strmap::{assoc_lookup, StrMap};
use crate::text::{join, join_strings, push_str, string_with_capacity, lemma_str_lt_total, lemma_str_lt_trans, str_eq, str_less, str_lt, to_owned_string};

verus! {

/// Keys strictly increasing: a sorted map without duplicates.
pub open spec fn sorted_keys(pairs: Seq<(Seq<char>, Seq<char>)>) -> bool {
    forall|i: int, j: int| 0 <= i < j < pairs.len() ==> str_lt(pairs[i].0, pairs[j].0)
}

/// The value under `k` in a list of pairs.
pub open spec fn pairs_get(pairs: Seq<(Seq<char>, Seq<char>)>, k: Seq<char>) -> Option<Seq<char>> {
    assoc_lookup(pairs, k)
}

/// An attribute to write: its name, and its value (none for a boolean one).
pub type AttrItem = (Seq<char>, Option<Seq<char>>);

/// The text of one attribute.
pub open spec fn item_text(it: AttrItem) -> Seq<char> {
    match it.1 {
        Some(v) => attr_text(it.0, v),
        None => " "@ + it.0,
    }
}

/// The text of attributes, in order.
pub open spec fn items_text(items: Seq<AttrItem>) -> Seq<char>
    decreases items.len(),
{
    if items.len() == 0 {
        seq![]
    } else {
        items_text(items.drop_last()) + item_text(items.last())
    }
}

/// The names of attributes, in order.
pub open spec fn item_names(items: Seq<AttrItem>) -> Seq<Seq<char>> {
    items.map_values(|it: AttrItem| it.0)
}

/// The attributes whose name has not come before, in order.
pub open spec fn first_items(items: Seq<AttrItem>) -> Seq<AttrItem>
    decreases items.len(),
{
    if items.len() == 0 {
        seq![]
    } else {
        let r = first_items(items.drop_last());
        if item_names(items.drop_last()).contains(items.last().0) { r } else { r.push(items.last()) }
    }
}

pub open spec fn names_of_strings(v: Seq<String>) -> Seq<Seq<char>> {
    v.map_values(|s: String| s@)
}

proof fn lemma_push_contains(ns: Seq<Seq<char>>, a: Seq<char>, n: Seq<char>)
    ensures
        ns.push(a).contains(n) <==> (ns.contains(n) || n == a),
{
    if n == a {
        assert(ns.push(a)[ns.len() as int] == a);
    }
    if ns.contains(n) {
        let j = choose|j: int| 0 <= j < ns.len() && ns[j] == n;
        assert(ns.push(a)[j] == n);
    }
    if ns.push(a).contains(n) {
        let j = choose|j: int| 0 <= j < ns.len() + 1 && ns.push(a)[j] == n;
        if j < ns.len() {
            assert(ns[j] == n);
        }
    }
}

/// The names kept are exactly the names given.
proof fn lemma_first_names(items: Seq<AttrItem>)
    ensures
        forall|n: Seq<char>| item_names(first_items(items)).contains(n) <==> #[trigger] item_names(items).contains(n),
    decreases items.len(),
{
    if items.len() > 0 {
        let x = items.drop_last();
        let a = items.last().0;
        lemma_first_names(x);
        let r = first_items(x);
        assert(item_names(items) =~= item_names(x).push(a));
        assert(item_names(r.push(items.last())) =~= item_names(r).push(a));
        assert forall|n: Seq<char>| item_names(first_items(items)).contains(n) <==> #[trigger] item_names(items).contains(n) by {
            lemma_push_contains(item_names(x), a, n);
            lemma_push_contains(item_names(r), a, n);
            assert(item_names(r).contains(n) <==> item_names(x).contains(n));
        }
    }
}

/// One more attribute: written when its name is new.
proof fn lemma_first_step(x: Seq<AttrItem>, it: AttrItem)
    ensures
        first_items(x.push(it)) == if item_names(first_items(x)).contains(it.0) {
            first_items(x)
        } else {
            first_items(x).push(it)
        },
        item_names(first_items(x.push(it))) == if item_names(first_items(x)).contains(it.0) {
            item_names(first_items(x))
        } else {
            item_names(first_items(x)).push(it.0)
        },
{
    lemma_first_names(x);
    assert(x.push(it).drop_last() =~= x);
    assert(item_names(first_items(x)).contains(it.0) == item_names(x).contains(it.0));
    assert(item_names(first_items(x).push(it)) =~= item_names(first_items(x)).push(it.0));
    assert(first_items(x).push(it).drop_last() =~= first_items(x));
}

/// The text after one more attribute.
proof fn lemma_text_push(f: Seq<AttrItem>, it: AttrItem)
    ensures
        items_text(f.push(it)) == items_text(f) + item_text(it),
{
    assert(f.push(it).drop_last() =~= f);
}

/// Each attribute name is written once: the names of the attributes written
/// are pairwise distinct, and every name given is among them.
pub proof fn law_attribute_names_once(items: Seq<AttrItem>)
    ensures
        forall|i: int, j: int| 0 <= i < j < first_items(items).len()
            ==> #[trigger] first_items(items)[i].0 != #[trigger] first_items(items)[j].0,
        forall|n: Seq<char>| item_names(first_items(items)).contains(n) <==> #[trigger] item_names(items).contains(n),
    decreases items.len(),
{
    lemma_first_names(items);
    if items.len() > 0 {
        let x = items.drop_last();
        law_attribute_names_once(x);
        let r = first_items(x);
        if !item_names(x).contains(items.last().0) {
            let f = r.push(items.last());
            assert forall|i: int, j: int| 0 <= i < j < f.len() implies #[trigger] f[i].0 != #[trigger] f[j].0 by {
                if j == r.len() {
                    assert(item_names(r)[i] == r[i].0);
                    assert(item_names(r).contains(r[i].0));
                } else {
                    assert(f[i] == r[i] && f[j] == r[j]);
                }
            }
        }
    }
}

/// Writes attribute `name` unless a name in `written` equals it, and then
/// records it.
fn write_once(w: &mut HtmlWriter, written: &mut Vec<String>, name: &str, value: Option<&str>)
    ensures
        final(w).open_tags() == old(w).open_tags(),
        names_of_strings(final(written)@) == if names_of_strings(old(written)@).contains(name@) {
            names_of_strings(old(written)@)
        } else {
            names_of_strings(old(written)@).push(name@)
        },
        final(w).html() == old(w).html() + if names_of_strings(old(written)@).contains(name@) {
            seq![]
        } else {
            item_text((name@, match value { Some(v) => Some(v@), None => None }))
        },
{
    let ghost ns = names_of_strings(written@);
    let mut k: usize = 0;
    while k < written.len()
        invariant
            k <= written@.len(),
            ns == names_of_strings(written@),
            forall|j: int| 0 <= j < k ==> ns[j] != name@,
        decreases written@.len() - k,
    {
        if str_eq(written[k].as_str(), name) {
            proof {
                assert(ns[k as int] == name@);
            }
            return;
        }
        k = k + 1;
    }
    proof {
        assert(!ns.contains(name@)) by {
            if ns.contains(name@) {
                let j = choose|j: int| 0 <= j < ns.len() && ns[j] == name@;
                assert(ns[j] != name@);
            }
        }
    }
    match value {
        Some(v) => w.attr(name, v),
        None => w.attr_bool(name),
    }
    written.push(to_owned_string(name));
    proof {
        assert(names_of_strings(written@) =~= ns.push(name@));
    }
}

/// Type-safe attribute builder. Prevents duplicate attributes, enforces escaping.
pub struct Attrs {
    map: Vec<(String, String)>,
    classes: Vec<String>,
    data: Vec<(String, String)>,
    bools: Vec<String>,
}

impl Attrs {
    /// Named attributes, sorted by name.
    pub closed spec fn attr_map(&self) -> Seq<(Seq<char>, Seq<char>)> {
        self.map@.map_values(|p: (String, String)| (p.0@, p.1@))
    }

    pub closed spec fn class_list(&self) -> Seq<Seq<char>> {
        self.classes@.map_values(|s: String| s@)
    }

    pub closed spec fn data_list(&self) -> Seq<(Seq<char>, Seq<char>)> {
        self.data@.map_values(|p: (String, String)| (p.0@, p.1@))
    }

    pub closed spec fn bool_list(&self) -> Seq<Seq<char>> {
        self.bools@.map_values(|s: String| s@)
    }

    /// Every attribute the builder holds, in writing order: the class list,
    /// the named attributes by name, the `data-` attributes, the boolean ones.
    pub open spec fn attr_items(&self) -> Seq<AttrItem> {
        (if self.class_list().len() > 0 { seq![("class"@, Some(join(self.class_list(), " "@)))] } else { seq![] })
            + self.attr_map().map_values(|p: (Seq<char>, Seq<char>)| (p.0, Some(p.1)))
            + self.data_list().map_values(|p: (Seq<char>, Seq<char>)| ("data-"@ + p.0, Some(p.1)))
            + self.bool_list().map_values(|b: Seq<char>| (b, None::<Seq<char>>))
    }

    /// The attribute text `write_into` produces: each name once, as it first
    /// comes in writing order.
    pub open spec fn text(&self) -> Seq<char> {
        items_text(first_items(self.attr_items()))
    }

    #[verifier::type_invariant]
    spec fn sorted(&self) -> bool {
        sorted_keys(self.attr_map())
    }

    pub fn new() -> (a: Self)
        ensures
            a.attr_map().len() == 0,
            a.class_list().len() == 0,
            a.data_list().len() == 0,
            a.bool_list().len() == 0,
    {
        let a = Attrs { map: Vec::new(), classes: Vec::new(), data: Vec::new(), bools: Vec::new() };
        proof {
            assert(a.attr_map().len() == 0);
        }
        a
    }

    /// Sets attribute `key`, replacing an earlier value of it.
    pub fn attr(self, key: &str, value: &str) -> (a: Self)
        ensures
            sorted_keys(a.attr_map()),
            pairs_get(a.attr_map(), key@) == Some(value@),
            forall|k: Seq<char>| k != key@ ==> pairs_get(a.attr_map(), k) == pairs_get(self.attr_map(), k),
            a.class_list() == self.class_list(),
            a.data_list() == self.data_list(),
            a.bool_list() == self.bool_list(),
    {
        proof {
            use_type_invariant(&self);
        }
        let mut s = self;
        let ghost old_map = s.attr_map();
        let mut i: usize = 0;
        while i < s.map.len() && str_less(s.map[i].0.as_str(), key)
            invariant
                i <= s.map@.len(),
                old_map == s.attr_map(),
                forall|j: int| 0 <= j < i ==> str_lt(old_map[j].0, key@),
            decreases s.map@.len() - i,
        {
            i = i + 1;
        }
        let mut map: Vec<(String, String)> = Vec::new();
        std::mem::swap(&mut map, &mut s.map);
        if i < map.len() && str_eq(map[i].0.as_str(), key) {
            map.set(i, (to_owned_string(key), to_owned_string(value)));
            proof {
                let nm = map@.map_values(|p: (String, String)| (p.0@, p.1@));
                assert(nm =~= old_map.update(i as int, (key@, value@)));
                assert forall|a: int, b: int| 0 <= a < b < nm.len() implies str_lt(nm[a].0, nm[b].0) by {
                    assert(nm[a].0 == old_map[a].0);
                    assert(nm[b].0 == old_map[b].0);
                }
                assert forall|k: Seq<char>| k != key@ implies pairs_get(nm, k) == pairs_get(old_map, k) by {
                    if exists|j: int| 0 <= j < nm.len() && nm[j].0 == k {
                        let j = choose|j: int| 0 <= j < nm.len() && nm[j].0 == k;
                        assert(old_map[j].0 == k);
                        Self::lemma_pairs_get_at(nm, k, j);
                        Self::lemma_pairs_get_at(old_map, k, j);
                    } else {
                        assert forall|j: int| 0 <= j < old_map.len() implies old_map[j].0 != k by {
                            if j != i { assert(nm[j] == old_map[j]); }
                        }
                        StrMap::lemma_lookup_none(nm, k);
                        StrMap::lemma_lookup_none(old_map, k);
                    }
                }
                Self::lemma_pairs_get_at(nm, key@, i as int);
            }
            s.map = map;
        } else {
            proof {
                if i < old_map.len() {
                    lemma_str_lt_total(old_map[i as int].0, key@);
                }
            }
            map.insert(i, (to_owned_string(key), to_owned_string(value)));
            proof {
                let nm = map@.map_values(|p: (String, String)| (p.0@, p.1@));
                assert(nm =~= old_map.insert(i as int, (key@, value@)));
                assert forall|x: int| i <= x < old_map.len() implies str_lt(key@, #[trigger] old_map[x].0) by {
                    if x > i {
                        lemma_str_lt_trans(key@, old_map[i as int].0, old_map[x].0);
                    }
                }
                assert forall|a: int, b: int| 0 <= a < b < nm.len() implies str_lt(nm[a].0, nm[b].0) by {
                    if b < i {
                        assert(nm[a] == old_map[a]);
                        assert(nm[b] == old_map[b]);
                    } else if b == i {
                        assert(nm[a] == old_map[a]);
                    } else {
                        assert(nm[b] == old_map[b - 1]);
                        assert(str_lt(key@, old_map[b - 1].0));
                        if a < i {
                            assert(nm[a] == old_map[a]);
                            lemma_str_lt_trans(nm[a].0, key@, nm[b].0);
                        } else if a > i {
                            assert(nm[a] == old_map[a - 1]);
                        }
                    }
                }
                assert forall|k: Seq<char>| k != key@ implies pairs_get(nm, k) == pairs_get(old_map, k) by {
                    if exists|j: int| 0 <= j < nm.len() && nm[j].0 == k {
                        let j = choose|j: int| 0 <= j < nm.len() && nm[j].0 == k;
                        let oj = if j < i { j } else { j - 1 };
                        assert(old_map[oj].0 == k);
                        Self::lemma_pairs_get_at(nm, k, j);
                        Self::lemma_pairs_get_at(old_map, k, oj);
                    } else {
                        assert forall|j: int| 0 <= j < old_map.len() implies old_map[j].0 != k by {
                            if j < i { assert(nm[j] == old_map[j]); } else { assert(nm[j + 1] == old_map[j]); }
                        }
                        StrMap::lemma_lookup_none(nm, k);
                        StrMap::lemma_lookup_none(old_map, k);
                    }
                }
                Self::lemma_pairs_get_at(nm, key@, i as int);
            }
            s.map = map;
        }
        s
    }

    proof fn lemma_pairs_get_at(pairs: Seq<(Seq<char>, Seq<char>)>, k: Seq<char>, j: int)
        requires
            sorted_keys(pairs),
            0 <= j < pairs.len(),
            pairs[j].0 == k,
        ensures
            pairs_get(pairs, k) == Some(pairs[j].1),
    {
        assert forall|c: int| 0 <= c < j implies pairs[c].0 != k by {
            assert(str_lt(pairs[c].0, pairs[j].0));
            lemma_str_lt_total(pairs[c].0, pairs[j].0);
        }
        StrMap::lemma_lookup_first(pairs, k, j);
    }

    pub fn class(self, cls: &str) -> (a: Self)
        ensures
            a.attr_map() == self.attr_map(),
            a.class_list() == self.class_list().push(cls@),
            a.data_list() == self.data_list(),
            a.bool_list() == self.bool_list(),
    {
        proof {
            use_type_invariant(&self);
        }
        let mut s = self;
        let mut classes: Vec<String> = Vec::new();
        std::mem::swap(&mut classes, &mut s.classes);
        classes.push(to_owned_string(cls));
        s.classes = classes;
        proof {
            assert(s.class_list() =~= self.class_list().push(cls@));
        }
        s
    }

    pub fn classes(self, cls: &[&str]) -> (a: Self)
        ensures
            a.attr_map() == self.attr_map(),
            a.class_list() == self.class_list() + cls@.map_values(|c: &str| c@),
            a.data_list() == self.data_list(),
            a.bool_list() == self.bool_list(),
    {
        proof {
            use_type_invariant(&self);
        }
        let mut s = self;
        let ghost cv = cls@.map_values(|c: &str| c@);
        let mut i: usize = 0;
        while i < cls.len()
            invariant
                i <= cls@.len(),
                cv == cls@.map_values(|c: &str| c@),
                s.class_list() == self.class_list() + cv.take(i as int),
                s.attr_map() == self.attr_map(),
                sorted_keys(self.attr_map()),
                s.data_list() == self.data_list(),
                s.bool_list() == self.bool_list(),
            decreases cls@.len() - i,
        {
            let ghost prev = s.classes@;
            let mut classes: Vec<String> = Vec::new();
            std::mem::swap(&mut classes, &mut s.classes);
            classes.push(to_owned_string(cls[i]));
            s.classes = classes;
            proof {
                assert(s.classes@ == prev.push(s.classes@.last()));
                assert(s.class_list() =~= prev.map_values(|c: String| c@).push(cls@[i as int]@));
                assert(s.class_list() =~= self.class_list() + cv.take(i + 1));
            }
            i = i + 1;
        }
        proof {
            assert(cv.take(cls@.len() as int) == cv);
        }
        s
    }

    pub fn data(self, key: &str, value: &str) -> (a: Self)
        ensures
            a.attr_map() == self.attr_map(),
            a.class_list() == self.class_list(),
            a.data_list() == self.data_list().push((key@, value@)),
            a.bool_list() == self.bool_list(),
    {
        proof {
            use_type_invariant(&self);
        }
        let mut s = self;
        let mut data: Vec<(String, String)> = Vec::new();
        std::mem::swap(&mut data, &mut s.data);
        data.push((to_owned_string(key), to_owned_string(value)));
        s.data = data;
        proof {
            assert(s.data_list() =~= self.data_list().push((key@, value@)));
        }
        s
    }

    pub fn bool_attr(self, key: &str) -> (a: Self)
        ensures
            a.attr_map() == self.attr_map(),
            a.class_list() == self.class_list(),
            a.data_list() == self.data_list(),
            a.bool_list() == self.bool_list().push(key@),
    {
        proof {
            use_type_invariant(&self);
        }
        let mut s = self;
        let mut bools: Vec<String> = Vec::new();
        std::mem::swap(&mut bools, &mut s.bools);
        bools.push(to_owned_string(key));
        s.bools = bools;
        proof {
            assert(s.bool_list() =~= self.bool_list().push(key@));
        }
        s
    }

    pub fn maybe_attr(self, key: &str, value: Option<&str>) -> (a: Self)
        ensures
            sorted_keys(a.attr_map()),
            match value {
                Some(v) => pairs_get(a.attr_map(), key@) == Some(v@)
                    && forall|k: Seq<char>| k != key@ ==> pairs_get(a.attr_map(), k) == pairs_get(self.attr_map(), k),
                None => a.attr_map() == self.attr_map(),
            },
            a.class_list() == self.class_list(),
            a.data_list() == self.data_list(),
            a.bool_list() == self.bool_list(),
    {
        proof {
            use_type_invariant(&self);
        }
        if let Some(v) = value { self.attr(key, v) } else { self }
    }

    pub fn maybe_class(self, cls: &str, condition: bool) -> (a: Self)
        ensures
            a.attr_map() == self.attr_map(),
            a.class_list() == if condition { self.class_list().push(cls@) } else { self.class_list() },
            a.data_list() == self.data_list(),
            a.bool_list() == self.bool_list(),
    {
        proof {
            use_type_invariant(&self);
        }
        if condition { self.class(cls) } else { self }
    }

    /// Writes the attributes into the HtmlWriter (between `open_tag_start` and
    /// `tag_end`): each name once, as it first comes in writing order.
    #[verifier::spinoff_prover]
    #[verifier::rlimit(60)]
    pub fn write_into(&self, w: &mut HtmlWriter)
        ensures
            final(w).html() == old(w).html() + self.text(),
            final(w).open_tags() == old(w).open_tags(),
    {
        let ghost start = w.html();
        let ghost items = self.attr_items();
        let ghost cpart: Seq<AttrItem> = if self.class_list().len() > 0 {
            seq![("class"@, Some(join(self.class_list(), " "@)))]
        } else {
            seq![]
        };
        let ghost mpart = self.attr_map().map_values(|p: (Seq<char>, Seq<char>)| (p.0, Some(p.1)));
        let ghost dpart = self.data_list().map_values(|p: (Seq<char>, Seq<char>)| ("data-"@ + p.0, Some(p.1)));
        let ghost bpart = self.bool_list().map_values(|b: Seq<char>| (b, None::<Seq<char>>));
        assert(items == cpart + mpart + dpart + bpart);
        let mut written: Vec<String> = Vec::new();
        assert(names_of_strings(written@) =~= Seq::<Seq<char>>::empty());
        assert(items.take(0) =~= Seq::<AttrItem>::empty());
        if self.classes.len() > 0 {
            let joined = join_strings(&self.classes, " ");
            write_once(w, &mut written, "class", Some(joined.as_str()));
            proof {
                lemma_first_step(items.take(0), items[0]);
                lemma_text_push(first_items(items.take(0)), items[0]);
                assert(items.take(0).push(items[0]) =~= items.take(1));
                assert(names_of_strings(Seq::<String>::empty()) =~= Seq::<Seq<char>>::empty());
            }
        }
        assert(items.take(cpart.len() as int) =~= cpart);
        let ghost c = cpart.len() as int;
        let mut i: usize = 0;
        while i < self.map.len()
            invariant
                i <= self.map@.len(),
                items == cpart + mpart + dpart + bpart,
                mpart.len() == self.map@.len(),
                c == cpart.len(),
                mpart == self.attr_map().map_values(|p: (Seq<char>, Seq<char>)| (p.0, Some(p.1))),
                w.html() == start + items_text(first_items(items.take(c + i))),
                names_of_strings(written@) == item_names(first_items(items.take(c + i))),
                w.open_tags() == old(w).open_tags(),
            decreases self.map@.len() - i,
        {
            let ghost x = items.take(c + i);
            let ghost it = items[c + i];
            assert(it == (self.map@[i as int].0@, Some(self.map@[i as int].1@)));
            write_once(w, &mut written, self.map[i].0.as_str(), Some(self.map[i].1.as_str()));
            proof {
                lemma_first_step(x, it);
                assert(x.push(it) =~= items.take(c + i + 1));
                lemma_text_push(first_items(x), it);
            }
            i = i + 1;
        }
        let ghost m = mpart.len() as int;
        let mut i: usize = 0;
        while i < self.data.len()
            invariant
                i <= self.data@.len(),
                items == cpart + mpart + dpart + bpart,
                dpart.len() == self.data@.len(),
                c == cpart.len(),
                m == mpart.len(),
                dpart == self.data_list().map_values(|p: (Seq<char>, Seq<char>)| ("data-"@ + p.0, Some(p.1))),
                w.html() == start + items_text(first_items(items.take(c + m + i))),
                names_of_strings(written@) == item_names(first_items(items.take(c + m + i))),
                w.open_tags() == old(w).open_tags(),
            decreases self.data@.len() - i,
        {
            let ghost x = items.take(c + m + i);
            let ghost it = items[c + m + i];
            let mut name = string_with_capacity(0);
            push_str(&mut name, "data-");
            push_str(&mut name, self.data[i].0.as_str());
            assert(it == (name@, Some(self.data@[i as int].1@)));
            write_once(w, &mut written, name.as_str(), Some(self.data[i].1.as_str()));
            proof {
                lemma_first_step(x, it);
                assert(x.push(it) =~= items.take(c + m + i + 1));
                lemma_text_push(first_items(x), it);
            }
            i = i + 1;
        }
        let ghost d = dpart.len() as int;
        let mut i: usize = 0;
        while i < self.bools.len()
            invariant
                i <= self.bools@.len(),
                items == cpart + mpart + dpart + bpart,
                bpart.len() == self.bools@.len(),
                c == cpart.len(),
                m == mpart.len(),
                d == dpart.len(),
                bpart == self.bool_list().map_values(|b: Seq<char>| (b, None::<Seq<char>>)),
                w.html() == start + items_text(first_items(items.take(c + m + d + i))),
                names_of_strings(written@) == item_names(first_items(items.take(c + m + d + i))),
                w.open_tags() == old(w).open_tags(),
            decreases self.bools@.len() - i,
        {
            let ghost x = items.take(c + m + d + i);
            let ghost it = items[c + m + d + i];
            assert(it == (self.bools@[i as int]@, None::<Seq<char>>));
            write_once(w, &mut written, self.bools[i].as_str(), None);
            proof {
                lemma_first_step(x, it);
                assert(x.push(it) =~= items.take(c + m + d + i + 1));
                lemma_text_push(first_items(x), it);
            }
            i = i + 1;
        }
        assert(items.take(items.len() as int) =~= items);
    }

    pub fn has_class(&self, cls: &str) -> (r: bool)
        ensures
            r == self.class_list().contains(cls@),
    {
        let mut i: usize = 0;
        while i < self.classes.len()
            invariant
                i <= self.classes@.len(),
                forall|j: int| 0 <= j < i ==> self.class_list()[j] != cls@,
            decreases self.classes@.len() - i,
        {
            if str_eq(self.classes[i].as_str(), cls) {
                proof {
                    assert(self.class_list()[i as int] == cls@);
                }
                return true;
            }
            i = i + 1;
        }
        false
    }
}

impl Default for Attrs {
    fn default() -> (a: Self)
        ensures
            a.attr_map().len() == 0,
            a.class_list().len() == 0,
            a.data_list().len() == 0,
            a.bool_list().len() == 0,
    {
        Attrs::new()
    }
}

} // verus!
