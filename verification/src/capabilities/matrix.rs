//! The capability matrix: for each component, its fields and where each may appear.
use vstd::prelude::*;
use crate::capabilities::surface::{Surface, SurfacePolicy, forbidden_surface, surface_name, user_visible};
use crate::text::{push_str, str_eq, string_with_capacity, to_owned_string};

verus! {

#[derive(Clone, Debug)]
pub struct CapabilityEntry {
    pub id: String,
    pub source: String,
    pub policy: SurfacePolicy,
}

#[derive(Clone, Debug)]
pub struct CapabilityRow {
    pub component: String,
    pub entries: Vec<CapabilityEntry>,
}

/// The entries whose surface is user-visible, in order.
pub open spec fn visible_of(es: Seq<CapabilityEntry>) -> Seq<CapabilityEntry>
    decreases es.len(),
{
    if es.len() == 0 {
        seq![]
    } else {
        let r = visible_of(es.drop_last());
        if user_visible(es.last().policy.surface) { r.push(es.last()) } else { r }
    }
}

/// The entries forbidden on every surface, in order.
pub open spec fn forbidden_of(es: Seq<CapabilityEntry>) -> Seq<CapabilityEntry>
    decreases es.len(),
{
    if es.len() == 0 {
        seq![]
    } else {
        let r = forbidden_of(es.drop_last());
        if forbidden_surface(es.last().policy.surface) { r.push(es.last()) } else { r }
    }
}

/// The entries marked as personal data, in order.
pub open spec fn pii_of(es: Seq<CapabilityEntry>) -> Seq<CapabilityEntry>
    decreases es.len(),
{
    if es.len() == 0 {
        seq![]
    } else {
        let r = pii_of(es.drop_last());
        if es.last().policy.pii { r.push(es.last()) } else { r }
    }
}

/// The index of the first entry with id `id`.
pub open spec fn entry_index(es: Seq<CapabilityEntry>, id: Seq<char>) -> Option<int>
    decreases es.len(),
{
    if es.len() == 0 {
        None
    } else {
        match entry_index(es.drop_last(), id) {
            Some(i) => Some(i),
            None => if es.last().id@ == id { Some(es.len() - 1) } else { None },
        }
    }
}

/// The index of the first row of component `c`.
pub open spec fn row_index(rows: Seq<CapabilityRow>, c: Seq<char>) -> Option<int>
    decreases rows.len(),
{
    if rows.len() == 0 {
        None
    } else {
        match row_index(rows.drop_last(), c) {
            Some(i) => Some(i),
            None => if rows.last().component@ == c { Some(rows.len() - 1) } else { None },
        }
    }
}

/// Entries tagged with their component.
pub open spec fn tag_entries(c: Seq<char>, es: Seq<CapabilityEntry>) -> Seq<(Seq<char>, CapabilityEntry)> {
    es.map_values(|e: CapabilityEntry| (c, e))
}

/// Every forbidden entry of the matrix with its component, row by row.
pub open spec fn all_forbidden_of(rows: Seq<CapabilityRow>) -> Seq<(Seq<char>, CapabilityEntry)>
    decreases rows.len(),
{
    if rows.len() == 0 {
        seq![]
    } else {
        all_forbidden_of(rows.drop_last()) + tag_entries(rows.last().component@, forbidden_of(rows.last().entries@))
    }
}

/// Every personal-data entry of the matrix with its component, row by row.
pub open spec fn all_pii_of(rows: Seq<CapabilityRow>) -> Seq<(Seq<char>, CapabilityEntry)>
    decreases rows.len(),
{
    if rows.len() == 0 {
        seq![]
    } else {
        all_pii_of(rows.drop_last()) + tag_entries(rows.last().component@, pii_of(rows.last().entries@))
    }
}

proof fn lemma_entry_index(es: Seq<CapabilityEntry>, id: Seq<char>, i: int)
    requires
        0 <= i <= es.len(),
        forall|j: int| 0 <= j < i ==> es[j].id@ != id,
        i < es.len() ==> es[i].id@ == id,
    ensures
        entry_index(es, id) == if i < es.len() { Some(i) } else { None::<int> },
    decreases es.len(),
{
    if es.len() > 0 {
        let t = es.drop_last();
        let k = if i < es.len() - 1 { i } else { es.len() - 1 };
        assert forall|j: int| 0 <= j < k implies t[j].id@ != id by {
            assert(t[j] == es[j]);
        }
        if i < es.len() - 1 {
            assert(t[i] == es[i]);
        }
        lemma_entry_index(t, id, k);
    }
}

proof fn lemma_row_index(rows: Seq<CapabilityRow>, c: Seq<char>, i: int)
    requires
        0 <= i <= rows.len(),
        forall|j: int| 0 <= j < i ==> rows[j].component@ != c,
        i < rows.len() ==> rows[i].component@ == c,
    ensures
        row_index(rows, c) == if i < rows.len() { Some(i) } else { None::<int> },
    decreases rows.len(),
{
    if rows.len() > 0 {
        let t = rows.drop_last();
        let k = if i < rows.len() - 1 { i } else { rows.len() - 1 };
        assert forall|j: int| 0 <= j < k implies t[j].component@ != c by {
            assert(t[j] == rows[j]);
        }
        if i < rows.len() - 1 {
            assert(t[i] == rows[i]);
        }
        lemma_row_index(t, c, k);
    }
}

fn find_entry_in<'a>(es: &'a Vec<CapabilityEntry>, id: &str) -> (r: Option<&'a CapabilityEntry>)
    ensures
        match entry_index(es@, id@) {
            Some(i) => r == Some(&es@[i]),
            None => r is None,
        },
{
    let mut i: usize = 0;
    while i < es.len()
        invariant
            i <= es@.len(),
            forall|j: int| 0 <= j < i ==> es@[j].id@ != id@,
        decreases es@.len() - i,
    {
        if str_eq(es[i].id.as_str(), id) {
            proof {
                lemma_entry_index(es@, id@, i as int);
            }
            return Some(&es[i]);
        }
        i = i + 1;
    }
    proof {
        lemma_entry_index(es@, id@, i as int);
    }
    None
}

impl CapabilityRow {
    pub fn new(component: &str) -> (r: Self)
        ensures
            r.component@ == component@,
            r.entries@.len() == 0,
    {
        CapabilityRow { component: to_owned_string(component), entries: Vec::new() }
    }

    pub fn add(self, id: &str, source: &str, policy: SurfacePolicy) -> (r: Self)
        ensures
            r.component == self.component,
            r.entries@.len() == self.entries@.len() + 1,
            r.entries@.drop_last() == self.entries@,
            r.entries@.last().id@ == id@,
            r.entries@.last().source@ == source@,
            r.entries@.last().policy == policy,
    {
        let mut r = self;
        r.entries.push(CapabilityEntry { id: to_owned_string(id), source: to_owned_string(source), policy });
        proof {
            assert(r.entries@.drop_last() =~= self.entries@);
        }
        r
    }

    /// The surface of the first entry with id `id`.
    pub fn surface_of(&self, id: &str) -> (r: Option<&Surface>)
        ensures
            match entry_index(self.entries@, id@) {
                Some(i) => r == Some(&self.entries@[i].policy.surface),
                None => r is None,
            },
    {
        match find_entry_in(&self.entries, id) {
            Some(e) => Some(&e.policy.surface),
            None => None,
        }
    }

    pub fn visible_entries(&self) -> (v: Vec<&CapabilityEntry>)
        ensures
            v@.map_values(|e: &CapabilityEntry| *e) == visible_of(self.entries@),
    {
        let es = &self.entries;
        let mut v: Vec<&CapabilityEntry> = Vec::new();
        let mut i: usize = 0;
        while i < es.len()
            invariant
                i <= es@.len(),
                es == &self.entries,
                v@.map_values(|e: &CapabilityEntry| *e) == visible_of(es@.take(i as int)),
            decreases es@.len() - i,
        {
            proof {
                assert(es@.take(i + 1).drop_last() == es@.take(i as int));
                assert(es@.take(i + 1).last() == es@[i as int]);
            }
            if es[i].policy.surface.is_user_visible() {
                let ghost before = v@;
                v.push(&es[i]);
                proof {
                    assert(v@.map_values(|e: &CapabilityEntry| *e)
                        =~= before.map_values(|e: &CapabilityEntry| *e).push(es@[i as int]));
                }
            }
            i = i + 1;
        }
        proof {
            assert(es@.take(es@.len() as int) == es@);
        }
        v
    }

    pub fn forbidden_entries(&self) -> (v: Vec<&CapabilityEntry>)
        ensures
            v@.map_values(|e: &CapabilityEntry| *e) == forbidden_of(self.entries@),
    {
        let es = &self.entries;
        let mut v: Vec<&CapabilityEntry> = Vec::new();
        let mut i: usize = 0;
        while i < es.len()
            invariant
                i <= es@.len(),
                es == &self.entries,
                v@.map_values(|e: &CapabilityEntry| *e) == forbidden_of(es@.take(i as int)),
            decreases es@.len() - i,
        {
            proof {
                assert(es@.take(i + 1).drop_last() == es@.take(i as int));
                assert(es@.take(i + 1).last() == es@[i as int]);
            }
            if !es[i].policy.surface.allows_in_api() {
                let ghost before = v@;
                v.push(&es[i]);
                proof {
                    assert(v@.map_values(|e: &CapabilityEntry| *e)
                        =~= before.map_values(|e: &CapabilityEntry| *e).push(es@[i as int]));
                }
            }
            i = i + 1;
        }
        proof {
            assert(es@.take(es@.len() as int) == es@);
        }
        v
    }
}

impl Default for CapabilityRow {
    fn default() -> (r: Self)
        ensures
            r.component@.len() == 0,
            r.entries@.len() == 0,
    {
        CapabilityRow { component: String::new(), entries: Vec::new() }
    }
}

/// Full capability matrix for the application.
#[derive(Clone, Debug)]
pub struct CapabilityMatrix {
    pub rows: Vec<CapabilityRow>,
}

/// The markdown line of one entry.
pub open spec fn markdown_line(component: Seq<char>, e: CapabilityEntry) -> Seq<char> {
    "| "@ + component + " | "@ + e.id@ + " | "@ + surface_name(e.policy.surface) + " | "@ + e.policy.label@ + " | "@
        + (if e.policy.pii { "yes"@ } else { "no"@ }) + " |\n"@
}

/// The markdown lines of a row's entries.
pub open spec fn markdown_entries(component: Seq<char>, es: Seq<CapabilityEntry>) -> Seq<char>
    decreases es.len(),
{
    if es.len() == 0 {
        seq![]
    } else {
        markdown_entries(component, es.drop_last()) + markdown_line(component, es.last())
    }
}

/// The markdown lines of all rows.
pub open spec fn markdown_rows(rows: Seq<CapabilityRow>) -> Seq<char>
    decreases rows.len(),
{
    if rows.len() == 0 {
        seq![]
    } else {
        markdown_rows(rows.drop_last()) + markdown_entries(rows.last().component@, rows.last().entries@)
    }
}

/// The matrix as a markdown table.
pub open spec fn matrix_markdown(rows: Seq<CapabilityRow>) -> Seq<char> {
    "| Component | Field | Surface | Label | PII |\n"@ + "|---|---|---|---|---|\n"@ + markdown_rows(rows)
}

impl CapabilityMatrix {
    pub fn new() -> (m: Self)
        ensures
            m.rows@.len() == 0,
    {
        CapabilityMatrix { rows: Vec::new() }
    }

    pub fn add_row(self, row: CapabilityRow) -> (m: Self)
        ensures
            m.rows@ == self.rows@.push(row),
    {
        let mut m = self;
        m.rows.push(row);
        m
    }

    /// The entry `id` of the first row of `component`; other rows of the same
    /// component are not searched.
    pub fn find_entry(&self, component: &str, id: &str) -> (r: Option<&CapabilityEntry>)
        ensures
            match row_index(self.rows@, component@) {
                Some(ri) => match entry_index(self.rows@[ri].entries@, id@) {
                    Some(ei) => r == Some(&self.rows@[ri].entries@[ei]),
                    None => r is None,
                },
                None => r is None,
            },
    {
        let mut i: usize = 0;
        while i < self.rows.len()
            invariant
                i <= self.rows@.len(),
                forall|j: int| 0 <= j < i ==> self.rows@[j].component@ != component@,
            decreases self.rows@.len() - i,
        {
            if str_eq(self.rows[i].component.as_str(), component) {
                proof {
                    lemma_row_index(self.rows@, component@, i as int);
                }
                return find_entry_in(&self.rows[i].entries, id);
            }
            i = i + 1;
        }
        proof {
            lemma_row_index(self.rows@, component@, i as int);
        }
        None
    }

    pub fn all_forbidden(&self) -> (v: Vec<(&str, &CapabilityEntry)>)
        ensures
            v@.map_values(|p: (&str, &CapabilityEntry)| (p.0@, *p.1)) == all_forbidden_of(self.rows@),
    {
        let mut v: Vec<(&str, &CapabilityEntry)> = Vec::new();
        let mut i: usize = 0;
        while i < self.rows.len()
            invariant
                i <= self.rows@.len(),
                v@.map_values(|p: (&str, &CapabilityEntry)| (p.0@, *p.1)) == all_forbidden_of(self.rows@.take(i as int)),
            decreases self.rows@.len() - i,
        {
            let row = &self.rows[i];
            let fs = row.forbidden_entries();
            let ghost start = v@.map_values(|p: (&str, &CapabilityEntry)| (p.0@, *p.1));
            let ghost fv = fs@.map_values(|e: &CapabilityEntry| *e);
            let mut k: usize = 0;
            while k < fs.len()
                invariant
                    k <= fs@.len(),
                    fv == fs@.map_values(|e: &CapabilityEntry| *e),
                    v@.map_values(|p: (&str, &CapabilityEntry)| (p.0@, *p.1)) == start + tag_entries(row.component@, fv.take(k as int)),
                decreases fs@.len() - k,
            {
                let ghost before = v@;
                v.push((row.component.as_str(), fs[k]));
                proof {
                    assert(v@.map_values(|p: (&str, &CapabilityEntry)| (p.0@, *p.1))
                        =~= before.map_values(|p: (&str, &CapabilityEntry)| (p.0@, *p.1)).push((row.component@, fv[k as int])));
                    assert(tag_entries(row.component@, fv.take(k + 1))
                        =~= tag_entries(row.component@, fv.take(k as int)).push((row.component@, fv[k as int])));
                }
                k = k + 1;
            }
            proof {
                assert(fv.take(fv.len() as int) == fv);
                assert(self.rows@.take(i + 1).drop_last() == self.rows@.take(i as int));
                assert(self.rows@.take(i + 1).last() == self.rows@[i as int]);
            }
            i = i + 1;
        }
        proof {
            assert(self.rows@.take(self.rows@.len() as int) == self.rows@);
        }
        v
    }

    pub fn all_pii(&self) -> (v: Vec<(&str, &CapabilityEntry)>)
        ensures
            v@.map_values(|p: (&str, &CapabilityEntry)| (p.0@, *p.1)) == all_pii_of(self.rows@),
    {
        let mut v: Vec<(&str, &CapabilityEntry)> = Vec::new();
        let mut i: usize = 0;
        while i < self.rows.len()
            invariant
                i <= self.rows@.len(),
                v@.map_values(|p: (&str, &CapabilityEntry)| (p.0@, *p.1)) == all_pii_of(self.rows@.take(i as int)),
            decreases self.rows@.len() - i,
        {
            let row = &self.rows[i];
            let es = &row.entries;
            let ghost start = v@.map_values(|p: (&str, &CapabilityEntry)| (p.0@, *p.1));
            let mut k: usize = 0;
            while k < es.len()
                invariant
                    k <= es@.len(),
                    es == &row.entries,
                    v@.map_values(|p: (&str, &CapabilityEntry)| (p.0@, *p.1))
                        == start + tag_entries(row.component@, pii_of(es@.take(k as int))),
                decreases es@.len() - k,
            {
                proof {
                    assert(es@.take(k + 1).drop_last() == es@.take(k as int));
                    assert(es@.take(k + 1).last() == es@[k as int]);
                }
                if es[k].policy.pii {
                    let ghost before = v@;
                    v.push((row.component.as_str(), &es[k]));
                    proof {
                        assert(v@.map_values(|p: (&str, &CapabilityEntry)| (p.0@, *p.1))
                            =~= before.map_values(|p: (&str, &CapabilityEntry)| (p.0@, *p.1)).push((row.component@, es@[k as int])));
                        assert(tag_entries(row.component@, pii_of(es@.take(k + 1)))
                            =~= tag_entries(row.component@, pii_of(es@.take(k as int))).push((row.component@, es@[k as int])));
                    }
                } else {
                    proof {
                        assert(pii_of(es@.take(k + 1)) == pii_of(es@.take(k as int)));
                    }
                }
                k = k + 1;
            }
            proof {
                assert(es@.take(es@.len() as int) == es@);
                assert(self.rows@.take(i + 1).drop_last() == self.rows@.take(i as int));
                assert(self.rows@.take(i + 1).last() == self.rows@[i as int]);
            }
            i = i + 1;
        }
        proof {
            assert(self.rows@.take(self.rows@.len() as int) == self.rows@);
        }
        v
    }

    /// Generate a markdown table for docs.
    pub fn to_markdown(&self) -> (s: String)
        ensures
            s@ == matrix_markdown(self.rows@),
    {
        let mut out = string_with_capacity(0);
        push_str(&mut out, "| Component | Field | Surface | Label | PII |\n");
        push_str(&mut out, "|---|---|---|---|---|\n");
        let ghost head = out@;
        let mut i: usize = 0;
        while i < self.rows.len()
            invariant
                i <= self.rows@.len(),
                out@ == head + markdown_rows(self.rows@.take(i as int)),
            decreases self.rows@.len() - i,
        {
            let row = &self.rows[i];
            let ghost s1 = out@;
            let mut k: usize = 0;
            while k < row.entries.len()
                invariant
                    k <= row.entries@.len(),
                    out@ == s1 + markdown_entries(row.component@, row.entries@.take(k as int)),
                decreases row.entries@.len() - k,
            {
                let e = &row.entries[k];
                let ghost s2 = out@;
                push_str(&mut out, "| ");
                push_str(&mut out, row.component.as_str());
                push_str(&mut out, " | ");
                push_str(&mut out, e.id.as_str());
                push_str(&mut out, " | ");
                push_str(&mut out, e.policy.surface.as_str());
                push_str(&mut out, " | ");
                push_str(&mut out, e.policy.label.as_str());
                push_str(&mut out, " | ");
                push_str(&mut out, if e.policy.pii { "yes" } else { "no" });
                push_str(&mut out, " |\n");
                proof {
                    assert(out@ =~= s2 + markdown_line(row.component@, *e));
                    assert(row.entries@.take(k + 1).drop_last() == row.entries@.take(k as int));
                    assert(row.entries@.take(k + 1).last() == row.entries@[k as int]);
                }
                k = k + 1;
            }
            proof {
                assert(row.entries@.take(row.entries@.len() as int) == row.entries@);
                assert(self.rows@.take(i + 1).drop_last() == self.rows@.take(i as int));
                assert(self.rows@.take(i + 1).last() == self.rows@[i as int]);
            }
            i = i + 1;
        }
        proof {
            assert(self.rows@.take(self.rows@.len() as int) == self.rows@);
        }
        out
    }
}

impl Default for CapabilityMatrix {
    fn default() -> (m: Self)
        ensures
            m.rows@.len() == 0,
    {
        CapabilityMatrix::new()
    }
}

} // verus!
