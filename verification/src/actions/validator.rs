//! Composable validators for form fields.
use vstd::prelude::*;
use vstd::string::StringSliceAdditionalSpecFns;
use vstd::utf8::encode_utf8;
use crate::actions::form::ParsedForm;
use crate::actions::numeric::{is_float_str, is_float_text};
use crate::strmap::StrMap;
use crate::text::{
    byte_len,
    chars_of, decimal, has_char, is_blank, is_blank_str, contains_char, push_str, replace_first,
    replace_first_str, str_eq, string_of, to_owned_string, trim, trim_spec, u64_to_string,
};

verus! {

pub struct ValidationError {
    pub field: String,
    pub message: String,
}

impl ValidationError {
    pub fn new(field: &str, message: &str) -> (e: Self)
        ensures
            e.field@ == field@,
            e.message@ == message@,
    {
        ValidationError { field: to_owned_string(field), message: to_owned_string(message) }
    }
}

/// One validation rule on one field.
pub enum Rule {
    Required { field: String },
    MinLen { field: String, min: usize },
    MaxLen { field: String, max: usize },
    Numeric { field: String },
    Email { field: String },
    EvmAddress { field: String },
}

/// The field a rule checks.
pub open spec fn rule_field(r: Rule) -> Seq<char> {
    match r {
        Rule::Required { field } => field@,
        Rule::MinLen { field, .. } => field@,
        Rule::MaxLen { field, .. } => field@,
        Rule::Numeric { field } => field@,
        Rule::Email { field } => field@,
        Rule::EvmAddress { field } => field@,
    }
}

/// The posted value of `f`, or the empty text.
pub open spec fn value_or_empty(form: ParsedForm, f: Seq<char>) -> Seq<char> {
    match form.value(f) {
        Some(v) => v,
        None => Seq::<char>::empty(),
    }
}

pub open spec fn is_hex_digit(c: char) -> bool {
    ('0' <= c && c <= '9') || ('a' <= c && c <= 'f') || ('A' <= c && c <= 'F')
}

/// What `strip_prefix("0x").unwrap_or(v)` leaves.
pub open spec fn strip_0x(v: Seq<char>) -> Seq<char> {
    if v.len() >= 2 && v[0] == '0' && v[1] == 'x' { v.skip(2) } else { v }
}

/// Forty hex digits, with or without a leading `0x`.
pub open spec fn is_evm_address(v: Seq<char>) -> bool {
    let hex = strip_0x(v);
    byte_len(hex) == 40 && forall|i: int| 0 <= i < hex.len() ==> is_hex_digit(#[trigger] hex[i])
}

/// The message a failing rule gives, if it fails on `form`.
pub open spec fn rule_message(r: Rule, form: ParsedForm) -> Option<Seq<char>> {
    match r {
        Rule::Required { field } =>
            match form.value(field@) {
                Some(v) => if is_blank(v) { Some(field@ + " is required"@) } else { None },
                None => Some(field@ + " is required"@),
            },
        Rule::MinLen { field, min } =>
            if byte_len(value_or_empty(form, field@)) < min {
                Some(field@ + " must be at least "@ + decimal(min as nat) + " characters"@)
            } else {
                None
            },
        Rule::MaxLen { field, max } =>
            if byte_len(value_or_empty(form, field@)) > max {
                Some(field@ + " must be at most "@ + decimal(max as nat) + " characters"@)
            } else {
                None
            },
        Rule::Numeric { field } => {
            let v = value_or_empty(form, field@);
            if is_blank(v) || is_float_text(v) { None } else { Some(field@ + " must be a number"@) }
        },
        Rule::Email { field } => {
            let v = value_or_empty(form, field@);
            if is_blank(v) || (has_char(v, '@') && has_char(v, '.')) { None } else { Some("Enter a valid email address"@) }
        },
        Rule::EvmAddress { field } => {
            let v = trim_spec(value_or_empty(form, field@));
            if v.len() == 0 || is_evm_address(v) { None } else { Some("Enter a valid Ethereum address (0x...)"@) }
        },
    }
}

/// An email address needs both an `@` and a `.`: the email rule lets a blank
/// value through, lets a non-blank value through exactly when it holds both,
/// and otherwise reports "Enter a valid email address" for its field.
pub proof fn law_email_rule(field: String, form: ParsedForm)
    ensures
        ({
            let v = value_or_empty(form, field@);
            let ok = is_blank(v) || (v.contains('@') && v.contains('.'));
            &&& rule_message(Rule::Email { field }, form) == if ok { None } else { Some("Enter a valid email address"@) }
            &&& rule_errors(seq![Rule::Email { field }], form)
                == if ok { Seq::<(Seq<char>, Seq<char>)>::empty() } else { seq![(field@, "Enter a valid email address"@)] }
        }),
{
    let v = value_or_empty(form, field@);
    assert(has_char(v, '@') == v.contains('@'));
    assert(has_char(v, '.') == v.contains('.'));
    let rs = seq![Rule::Email { field }];
    assert(rs.drop_last() =~= Seq::<Rule>::empty());
    assert(rs.last() == Rule::Email { field });
    assert(rule_errors(Seq::<Rule>::empty(), form) == Seq::<(Seq<char>, Seq<char>)>::empty());
    assert(rule_field(Rule::Email { field }) == field@);
    match rule_message(Rule::Email { field }, form) {
        Some(m) => {
            assert(rule_errors(rs, form) =~= seq![(field@, m)]);
        },
        None => {
            assert(rule_errors(rs, form) =~= Seq::<(Seq<char>, Seq<char>)>::empty());
        },
    }
}

/// The (field, message) pairs of the failing rules, in rule order.
pub open spec fn rule_errors(rules: Seq<Rule>, form: ParsedForm) -> Seq<(Seq<char>, Seq<char>)>
    decreases rules.len(),
{
    if rules.len() == 0 {
        seq![]
    } else {
        rule_errors(rules.drop_last(), form) + match rule_message(rules.last(), form) {
            Some(m) => seq![(rule_field(rules.last()), m)],
            None => seq![],
        }
    }
}

/// The messages for field `f`, in order.
pub open spec fn messages_for(errs: Seq<(Seq<char>, Seq<char>)>, f: Seq<char>) -> Seq<Seq<char>>
    decreases errs.len(),
{
    if errs.len() == 0 {
        seq![]
    } else {
        messages_for(errs.drop_last(), f) + if errs.last().0 == f { seq![errs.last().1] } else { seq![] }
    }
}

/// Each message with the first occurrence of the field key replaced by its label.
pub open spec fn relabel(msgs: Seq<Seq<char>>, f: Seq<char>, label: Option<Seq<char>>) -> Seq<Seq<char>> {
    match label {
        Some(l) => msgs.map_values(|m: Seq<char>| replace_first(m, f, l)),
        None => msgs,
    }
}

/// Messages grouped by field; fields in the order of their first message.
pub struct FieldErrors {
    entries: Vec<(String, Vec<String>)>,
}

pub open spec fn msgs_view(v: Vec<String>) -> Seq<Seq<char>> {
    v@.map_values(|s: String| s@)
}

/// The messages of the first entry with key `f`.
pub open spec fn group_lookup(entries: Seq<(Seq<char>, Seq<Seq<char>>)>, f: Seq<char>) -> Option<Seq<Seq<char>>>
    decreases entries.len(),
{
    if entries.len() == 0 {
        None
    } else if entries[0].0 == f {
        Some(entries[0].1)
    } else {
        group_lookup(entries.drop_first(), f)
    }
}

impl FieldErrors {
    pub closed spec fn groups(&self) -> Seq<(Seq<char>, Seq<Seq<char>>)> {
        self.entries@.map_values(|e: (String, Vec<String>)| (e.0@, msgs_view(e.1)))
    }

    /// The messages for field `f`, if it has any.
    pub open spec fn get_spec(&self, f: Seq<char>) -> Option<Seq<Seq<char>>> {
        group_lookup(self.groups(), f)
    }

    /// The number of fields with messages.
    pub open spec fn len_spec(&self) -> nat {
        self.groups().len()
    }

    pub fn new() -> (e: Self)
        ensures
            forall|f: Seq<char>| e.get_spec(f) is None,
            e.len_spec() == 0,
    {
        let e = FieldErrors { entries: Vec::new() };
        proof {
            assert(e.groups().len() == 0);
        }
        e
    }

    proof fn lemma_lookup_none(g: Seq<(Seq<char>, Seq<Seq<char>>)>, f: Seq<char>)
        ensures
            group_lookup(g, f) is None <==> forall|i: int| 0 <= i < g.len() ==> g[i].0 != f,
        decreases g.len(),
    {
        if g.len() > 0 {
            Self::lemma_lookup_none(g.drop_first(), f);
            if g[0].0 != f {
                assert((forall|i: int| 0 <= i < g.len() ==> g[i].0 != f) <==> (forall|i: int| 0 <= i < g.drop_first().len() ==> g.drop_first()[i].0 != f)) by {
                    if forall|i: int| 0 <= i < g.drop_first().len() ==> g.drop_first()[i].0 != f {
                        assert forall|i: int| 0 <= i < g.len() implies g[i].0 != f by {
                            if i > 0 {
                                assert(g[i] == g.drop_first()[i - 1]);
                            }
                        }
                    }
                    if forall|i: int| 0 <= i < g.len() ==> g[i].0 != f {
                        assert forall|i: int| 0 <= i < g.drop_first().len() implies g.drop_first()[i].0 != f by {
                            assert(g[i + 1] == g.drop_first()[i]);
                        }
                    }
                }
            }
        }
    }

    proof fn lemma_lookup_first(g: Seq<(Seq<char>, Seq<Seq<char>>)>, f: Seq<char>, i: int)
        requires
            0 <= i < g.len(),
            g[i].0 == f,
            forall|j: int| 0 <= j < i ==> g[j].0 != f,
        ensures
            group_lookup(g, f) == Some(g[i].1),
        decreases g.len(),
    {
        if i > 0 {
            let rest = g.drop_first();
            assert(g[0].0 != f);
            assert forall|j: int| 0 <= j < i - 1 implies rest[j].0 != f by {
                assert(rest[j] == g[j + 1]);
            }
            assert(rest[i - 1] == g[i]);
            Self::lemma_lookup_first(rest, f, i - 1);
        }
    }

    proof fn lemma_update_at(g: Seq<(Seq<char>, Seq<Seq<char>>)>, i: int, p: (Seq<char>, Seq<Seq<char>>), q: Seq<char>)
        requires
            0 <= i < g.len(),
            g[i].0 == p.0,
            forall|j: int| 0 <= j < i ==> g[j].0 != p.0,
        ensures
            group_lookup(g.update(i, p), q) == if q == p.0 { Some(p.1) } else { group_lookup(g, q) },
        decreases g.len(),
    {
        let u = g.update(i, p);
        if q == p.0 {
            assert forall|j: int| 0 <= j < i implies u[j].0 != q by {
                assert(u[j] == g[j]);
            }
            Self::lemma_lookup_first(u, q, i);
        } else if i == 0 {
            assert(u.drop_first() =~= g.drop_first());
        } else {
            let rest = g.drop_first();
            assert(u.drop_first() =~= rest.update(i - 1, p));
            assert forall|j: int| 0 <= j < i - 1 implies rest[j].0 != p.0 by {
                assert(rest[j] == g[j + 1]);
            }
            Self::lemma_update_at(rest, i - 1, p, q);
        }
    }

    proof fn lemma_push_new(g: Seq<(Seq<char>, Seq<Seq<char>>)>, p: (Seq<char>, Seq<Seq<char>>), q: Seq<char>)
        requires
            forall|j: int| 0 <= j < g.len() ==> g[j].0 != p.0,
        ensures
            group_lookup(g.push(p), q) == if q == p.0 { Some(p.1) } else { group_lookup(g, q) },
        decreases g.len(),
    {
        if g.len() == 0 {
            assert(g.push(p).drop_first() =~= g);
        } else {
            assert(g.push(p).drop_first() =~= g.drop_first().push(p));
            Self::lemma_push_new(g.drop_first(), p, q);
        }
    }

    /// Appends `msg` to the messages of `field`.
    pub fn push_error(&mut self, field: &str, msg: String)
        ensures
            forall|f: Seq<char>| #[trigger] final(self).get_spec(f) == if f == field@ {
                Some(match old(self).get_spec(f) { Some(ms) => ms, None => Seq::<Seq<char>>::empty() }.push(msg@))
            } else {
                old(self).get_spec(f)
            },
            final(self).len_spec() >= old(self).len_spec(),
            final(self).len_spec() > 0,
    {
        let ghost g = self.groups();
        let mut i: usize = 0;
        let mut found = false;
        while i < self.entries.len() && !found
            invariant
                i <= self.entries@.len(),
                g == self.groups(),
                found ==> i < g.len() && g[i as int].0 == field@,
                forall|j: int| 0 <= j < i ==> g[j].0 != field@,
            decreases self.entries@.len() - i + (if found { 0int } else { 1int }),
        {
            if str_eq(self.entries[i].0.as_str(), field) {
                found = true;
            } else {
                i = i + 1;
            }
        }
        let mut entries: Vec<(String, Vec<String>)> = Vec::new();
        std::mem::swap(&mut entries, &mut self.entries);
        if found {
            let ghost old_e = entries@;
            let (k, mut ms) = entries.remove(i);
            let ghost old_ms = msgs_view(ms);
            ms.push(msg);
            proof {
                assert(msgs_view(ms) =~= old_ms.push(msg@));
            }
            entries.insert(i, (k, ms));
            self.entries = entries;
            proof {
                assert(g[i as int].0 == field@);
                Self::lemma_lookup_first(g, field@, i as int);
                assert(self.groups() =~= g.update(i as int, (field@, old_ms.push(msg@))));
                assert forall|f: Seq<char>| #[trigger] self.get_spec(f) == if f == field@ {
                    Some(match old(self).get_spec(f) { Some(ms) => ms, None => Seq::<Seq<char>>::empty() }.push(msg@))
                } else {
                    old(self).get_spec(f)
                } by {
                    Self::lemma_update_at(g, i as int, (field@, old_ms.push(msg@)), f);
                }
            }
        } else {
            let mut ms: Vec<String> = Vec::new();
            ms.push(msg);
            entries.push((to_owned_string(field), ms));
            self.entries = entries;
            proof {
                Self::lemma_lookup_none(g, field@);
                assert(msgs_view(ms) =~= seq![msg@]);
                assert(self.groups() =~= g.push((field@, seq![msg@])));
                assert(seq![msg@] =~= Seq::<Seq<char>>::empty().push(msg@));
                assert forall|f: Seq<char>| #[trigger] self.get_spec(f) == if f == field@ {
                    Some(match old(self).get_spec(f) { Some(ms) => ms, None => Seq::<Seq<char>>::empty() }.push(msg@))
                } else {
                    old(self).get_spec(f)
                } by {
                    Self::lemma_push_new(g, (field@, seq![msg@]), f);
                }
            }
        }
    }

    /// The messages of `field`.
    pub fn get(&self, field: &str) -> (r: Option<&Vec<String>>)
        ensures
            match r {
                Some(v) => self.get_spec(field@) == Some(msgs_view(*v)),
                None => self.get_spec(field@) is None,
            },
    {
        let ghost g = self.groups();
        let mut i: usize = 0;
        while i < self.entries.len()
            invariant
                i <= self.entries@.len(),
                g == self.groups(),
                forall|j: int| 0 <= j < i ==> g[j].0 != field@,
            decreases self.entries@.len() - i,
        {
            if str_eq(self.entries[i].0.as_str(), field) {
                proof {
                    Self::lemma_lookup_first(g, field@, i as int);
                }
                return Some(&self.entries[i].1);
            }
            i = i + 1;
        }
        proof {
            Self::lemma_lookup_none(g, field@);
        }
        None
    }

    /// Whether `field` has messages.
    pub fn contains_key(&self, field: &str) -> (b: bool)
        ensures
            b == self.get_spec(field@) is Some,
    {
        self.get(field).is_some()
    }

    pub fn is_empty(&self) -> (b: bool)
        ensures
            b == (self.len_spec() == 0),
    {
        self.entries.len() == 0
    }

    pub fn len(&self) -> (n: usize)
        ensures
            n == self.len_spec(),
    {
        self.entries.len()
    }

    /// The first message of the first field with messages.
    pub fn first_message(&self) -> (r: Option<String>)
        ensures
            self.len_spec() == 0 ==> r is None,
            self.len_spec() > 0 ==> (self.groups()[0].1.len() > 0 ==> r is Some && r->0@ == self.groups()[0].1[0])
                && (self.groups()[0].1.len() == 0 ==> r is None),
            r matches Some(m) ==> exists|f: Seq<char>| #[trigger] self.get_spec(f) == Some(self.groups()[0].1)
                && self.groups()[0].1.len() > 0 && self.groups()[0].1[0] == m@,
            r is None ==> self.len_spec() == 0
                || exists|f: Seq<char>| #[trigger] self.get_spec(f) == Some(Seq::<Seq<char>>::empty()),
    {
        proof {
            if self.len_spec() > 0 {
                let g = self.groups();
                assert(group_lookup(g, g[0].0) == Some(g[0].1));
                assert(self.get_spec(g[0].0) == Some(g[0].1));
                if g[0].1.len() == 0 {
                    assert(g[0].1 =~= Seq::<Seq<char>>::empty());
                }
            }
        }
        if self.entries.len() == 0 {
            return None;
        }
        if self.entries[0].1.len() == 0 {
            return None;
        }
        Some(self.entries[0].1[0].clone())
    }
}

/// Composable validators for form fields.
pub struct Validator {
    rules: Vec<Rule>,
    labels: StrMap,
}

impl Validator {
    pub closed spec fn rules(&self) -> Seq<Rule> {
        self.rules@
    }

    /// The display label of field `f`.
    pub closed spec fn label_of(&self, f: Seq<char>) -> Option<Seq<char>> {
        self.labels.get_spec(f)
    }

    /// Whether any label is set.
    pub closed spec fn has_labels(&self) -> bool {
        self.labels.keys().len() > 0
    }

    /// The messages `validate` reports for field `f` on `form`.
    pub open spec fn report(&self, form: ParsedForm, f: Seq<char>) -> Option<Seq<Seq<char>>> {
        let ms = messages_for(rule_errors(self.rules(), form), f);
        if ms.len() == 0 {
            None
        } else if self.has_labels() {
            Some(relabel(ms, f, self.label_of(f)))
        } else {
            Some(ms)
        }
    }

    pub fn new() -> (v: Self)
        ensures
            v.rules().len() == 0,
            !v.has_labels(),
            forall|f: Seq<char>| v.label_of(f) is None,
    {
        Validator { rules: Vec::new(), labels: StrMap::new() }
    }

    /// Map an internal field key to a human-readable label used in error messages.
    pub fn label(self, field: &str, display: &str) -> (v: Self)
        ensures
            v.rules() == self.rules(),
            v.has_labels(),
            forall|f: Seq<char>| #[trigger] v.label_of(f) == if f == field@ { Some(display@) } else { self.label_of(f) },
    {
        let mut v = self;
        v.labels.insert(to_owned_string(field), to_owned_string(display));
        v
    }

    fn add(self, r: Rule) -> (v: Self)
        ensures
            v.rules() == self.rules().push(r),
            v.has_labels() == self.has_labels(),
            forall|f: Seq<char>| v.label_of(f) == self.label_of(f),
    {
        let mut v = self;
        v.rules.push(r);
        v
    }

    pub fn required(self, field: &str) -> (v: Self)
        ensures
            v.rules() == self.rules().push(Rule::Required { field: v.rules().last()->Required_field }),
            v.rules().last()->Required_field@ == field@,
            v.has_labels() == self.has_labels(),
            forall|f: Seq<char>| v.label_of(f) == self.label_of(f),
    {
        self.add(Rule::Required { field: to_owned_string(field) })
    }

    pub fn min_len(self, field: &str, min: usize) -> (v: Self)
        ensures
            v.rules() == self.rules().push(Rule::MinLen { field: v.rules().last()->MinLen_field, min }),
            v.rules().last()->MinLen_field@ == field@,
            v.has_labels() == self.has_labels(),
            forall|f: Seq<char>| v.label_of(f) == self.label_of(f),
    {
        self.add(Rule::MinLen { field: to_owned_string(field), min })
    }

    pub fn max_len(self, field: &str, max: usize) -> (v: Self)
        ensures
            v.rules() == self.rules().push(Rule::MaxLen { field: v.rules().last()->MaxLen_field, max }),
            v.rules().last()->MaxLen_field@ == field@,
            v.has_labels() == self.has_labels(),
            forall|f: Seq<char>| v.label_of(f) == self.label_of(f),
    {
        self.add(Rule::MaxLen { field: to_owned_string(field), max })
    }

    pub fn numeric(self, field: &str) -> (v: Self)
        ensures
            v.rules() == self.rules().push(Rule::Numeric { field: v.rules().last()->Numeric_field }),
            v.rules().last()->Numeric_field@ == field@,
            v.has_labels() == self.has_labels(),
            forall|f: Seq<char>| v.label_of(f) == self.label_of(f),
    {
        self.add(Rule::Numeric { field: to_owned_string(field) })
    }

    pub fn email(self, field: &str) -> (v: Self)
        ensures
            v.rules() == self.rules().push(Rule::Email { field: v.rules().last()->Email_field }),
            v.rules().last()->Email_field@ == field@,
            v.has_labels() == self.has_labels(),
            forall|f: Seq<char>| v.label_of(f) == self.label_of(f),
    {
        self.add(Rule::Email { field: to_owned_string(field) })
    }

    pub fn evm_address(self, field: &str) -> (v: Self)
        ensures
            v.rules() == self.rules().push(Rule::EvmAddress { field: v.rules().last()->EvmAddress_field }),
            v.rules().last()->EvmAddress_field@ == field@,
            v.has_labels() == self.has_labels(),
            forall|f: Seq<char>| v.label_of(f) == self.label_of(f),
    {
        self.add(Rule::EvmAddress { field: to_owned_string(field) })
    }

    /// Runs every rule on `form` and groups the messages of the failing ones by
    /// field, each message relabeled when labels are set.
    pub fn validate(&self, form: &ParsedForm) -> (errs: FieldErrors)
        ensures
            forall|f: Seq<char>| #[trigger] errs.get_spec(f) == self.report(*form, f),
            (errs.len_spec() == 0) == (rule_errors(self.rules(), *form).len() == 0),
    {
        let ghost rs = self.rules();
        let mut errs = FieldErrors::new();
        let mut i: usize = 0;
        while i < self.rules.len()
            invariant
                i <= rs.len(),
                rs == self.rules(),
                forall|f: Seq<char>| #[trigger] errs.get_spec(f) == {
                    let ms = messages_for(rule_errors(rs.take(i as int), *form), f);
                    if ms.len() == 0 { None } else { Some(ms) }
                },
                (errs.len_spec() == 0) == (rule_errors(rs.take(i as int), *form).len() == 0),
            decreases rs.len() - i,
        {
            let ghost prev = rule_errors(rs.take(i as int), *form);
            proof {
                assert(rs.take(i + 1).drop_last() == rs.take(i as int));
                assert(rs.take(i + 1).last() == rs[i as int]);
            }
            let (field, res) = check_rule(&self.rules[i], form);
            match res {
                Some(msg) => {
                    let ghost m = msg@;
                    errs.push_error(field, msg);
                    proof {
                        assert forall|f: Seq<char>| #[trigger] errs.get_spec(f) == {
                            let ms = messages_for(rule_errors(rs.take(i + 1), *form), f);
                            if ms.len() == 0 { None } else { Some(ms) }
                        } by {
                            let cur = rule_errors(rs.take(i + 1), *form);
                            assert(cur == prev + seq![(field@, m)]);
                            assert(cur.drop_last() =~= prev);
                            let pm = messages_for(prev, f);
                            if f == field@ {
                                assert(messages_for(cur, f) =~= pm.push(m));
                            } else {
                                assert(messages_for(cur, f) =~= pm);
                            }
                        }
                    }
                },
                None => {
                    proof {
                        assert(rule_errors(rs.take(i + 1), *form) =~= prev);
                    }
                },
            }
            i = i + 1;
        }
        proof {
            assert(rs.take(rs.len() as int) == rs);
        }
        if self.labels.is_empty() {
            return errs;
        }
        relabel_all(errs, &self.labels)
    }

    pub fn is_valid(&self, form: &ParsedForm) -> (b: bool)
        ensures
            b == (rule_errors(self.rules(), *form).len() == 0),
    {
        self.validate(form).is_empty()
    }
}

impl Default for Validator {
    fn default() -> (v: Self)
        ensures
            v.rules().len() == 0,
            !v.has_labels(),
    {
        Validator::new()
    }
}

/// Replaces, in every message, the first occurrence of the field key by its label.
fn relabel_all(errs: FieldErrors, labels: &StrMap) -> (r: FieldErrors)
    ensures
        forall|f: Seq<char>| #[trigger] r.get_spec(f) == match errs.get_spec(f) {
            Some(ms) => Some(relabel(ms, f, labels.get_spec(f))),
            None => None,
        },
        r.len_spec() == errs.len_spec(),
{
    let ghost g = errs.groups();
    let mut out: Vec<(String, Vec<String>)> = Vec::new();
    let mut i: usize = 0;
    while i < errs.entries.len()
        invariant
            i <= errs.entries@.len(),
            g == errs.groups(),
            out@.len() == i,
            forall|j: int| 0 <= j < i ==> (#[trigger] out@[j]).0@ == g[j].0
                && msgs_view(out@[j].1) == relabel(g[j].1, g[j].0, labels.get_spec(g[j].0)),
        decreases errs.entries@.len() - i,
    {
        let field = &errs.entries[i].0;
        let msgs = &errs.entries[i].1;
        let label = labels.get(field.as_str());
        let mut nm: Vec<String> = Vec::new();
        let mut k: usize = 0;
        while k < msgs.len()
            invariant
                k <= msgs@.len(),
                nm@.len() == k,
                forall|j: int| 0 <= j < k ==> (#[trigger] nm@[j])@ == match label {
                    Some(l) => replace_first(msgs@[j]@, field@, l@),
                    None => msgs@[j]@,
                },
            decreases msgs@.len() - k,
        {
            let m = match label {
                Some(l) => replace_first_str(msgs[k].as_str(), field.as_str(), l),
                None => msgs[k].clone(),
            };
            nm.push(m);
            k = k + 1;
        }
        proof {
            assert(g[i as int].0 == field@);
            assert(g[i as int].1 == msgs_view(*msgs));
            assert(msgs_view(nm) =~= relabel(g[i as int].1, g[i as int].0, labels.get_spec(g[i as int].0)));
        }
        out.push((field.clone(), nm));
        i = i + 1;
    }
    let r = FieldErrors { entries: out };
    proof {
        let rg = r.groups();
        assert forall|j: int| 0 <= j < rg.len() implies rg[j].0 == g[j].0 && rg[j].1 == relabel(g[j].1, g[j].0, labels.get_spec(g[j].0)) by {
            assert(rg[j].0 == out@[j].0@);
        }
        assert forall|f: Seq<char>| #[trigger] r.get_spec(f) == match errs.get_spec(f) {
            Some(ms) => Some(relabel(ms, f, labels.get_spec(f))),
            None => None,
        } by {
            lemma_relabel_lookup(g, rg, labels, f);
        }
    }
    r
}

proof fn lemma_relabel_lookup(g: Seq<(Seq<char>, Seq<Seq<char>>)>, rg: Seq<(Seq<char>, Seq<Seq<char>>)>, labels: &StrMap, f: Seq<char>)
    requires
        rg.len() == g.len(),
        forall|j: int| 0 <= j < rg.len() ==> rg[j].0 == g[j].0 && rg[j].1 == relabel(g[j].1, g[j].0, labels.get_spec(g[j].0)),
    ensures
        group_lookup(rg, f) == match group_lookup(g, f) {
            Some(ms) => Some(relabel(ms, f, labels.get_spec(f))),
            None => None,
        },
    decreases g.len(),
{
    if g.len() > 0 && g[0].0 != f {
        assert forall|j: int| 0 <= j < rg.drop_first().len() implies rg.drop_first()[j].0 == g.drop_first()[j].0
            && rg.drop_first()[j].1 == relabel(g.drop_first()[j].1, g.drop_first()[j].0, labels.get_spec(g.drop_first()[j].0)) by {
            assert(rg.drop_first()[j] == rg[j + 1]);
            assert(g.drop_first()[j] == g[j + 1]);
        }
        lemma_relabel_lookup(g.drop_first(), rg.drop_first(), labels, f);
    }
}

/// Checks one rule: its field, and the message when it fails.
fn check_rule<'a>(rule: &'a Rule, form: &ParsedForm) -> (r: (&'a str, Option<String>))
    ensures
        r.0@ == rule_field(*rule),
        match rule_message(*rule, *form) {
            Some(m) => r.1 is Some && r.1->0@ == m,
            None => r.1 is None,
        },
{
    match rule {
        Rule::Required { field } => {
            let missing = match form.get(field.as_str()) {
                Some(v) => is_blank_str(v),
                None => true,
            };
            proof {
                assert(missing == match form.value(field@) {
                    Some(v) => is_blank(v),
                    None => true,
                });
            }
            if missing {
                let mut m = to_owned_string(field.as_str());
                m.append(" is required");
                assert(rule_message(*rule, *form) == Some(field@ + " is required"@));
                assert(m@ == field@ + " is required"@);
                (field.as_str(), Some(m))
            } else {
                (field.as_str(), None)
            }
        },
        Rule::MinLen { field, min } => {
            let v = form.get_or_empty(field.as_str());
            if v.len() < *min {
                let mut m = to_owned_string(field.as_str());
                m.append(" must be at least ");
                let n = u64_to_string(*min as u64);
                push_str(&mut m, n.as_str());
                m.append(" characters");
                (field.as_str(), Some(m))
            } else {
                (field.as_str(), None)
            }
        },
        Rule::MaxLen { field, max } => {
            let v = form.get_or_empty(field.as_str());
            if v.len() > *max {
                let mut m = to_owned_string(field.as_str());
                m.append(" must be at most ");
                let n = u64_to_string(*max as u64);
                push_str(&mut m, n.as_str());
                m.append(" characters");
                (field.as_str(), Some(m))
            } else {
                (field.as_str(), None)
            }
        },
        Rule::Numeric { field } => {
            let v = form.get_or_empty(field.as_str());
            if is_blank_str(v) || is_float_str(v) {
                (field.as_str(), None)
            } else {
                let mut m = to_owned_string(field.as_str());
                m.append(" must be a number");
                (field.as_str(), Some(m))
            }
        },
        Rule::Email { field } => {
            let v = form.get_or_empty(field.as_str());
            if is_blank_str(v) || (contains_char(v, '@') && contains_char(v, '.')) {
                (field.as_str(), None)
            } else {
                (field.as_str(), Some(to_owned_string("Enter a valid email address")))
            }
        },
        Rule::EvmAddress { field } => {
            let raw = form.get_or_empty(field.as_str());
            let v = trim(raw);
            if v.as_str().is_empty() || evm_address_ok(v.as_str()) {
                (field.as_str(), None)
            } else {
                (field.as_str(), Some(to_owned_string("Enter a valid Ethereum address (0x...)")))
            }
        },
    }
}

fn evm_address_ok(v: &str) -> (b: bool)
    ensures
        b == is_evm_address(v@),
{
    let cv = chars_of(v);
    let lo: usize = if cv.len() >= 2 && cv[0] == '0' && cv[1] == 'x' { 2 } else { 0 };
    let hex = string_of(&cv.as_slice()[lo..cv.len()]);
    proof {
        assert(hex@ =~= strip_0x(v@));
    }
    if hex.as_str().len() != 40 {
        return false;
    }
    let hv = chars_of(hex.as_str());
    let mut k: usize = 0;
    while k < hv.len()
        invariant
            hv@ == hex@,
            hex@ == strip_0x(v@),
            byte_len(hex@) == 40,
            k <= hv@.len(),
            forall|j: int| 0 <= j < k ==> is_hex_digit(#[trigger] hex@[j]),
        decreases hv@.len() - k,
    {
        let ch = hv[k];
        if !((ch >= '0' && ch <= '9') || (ch >= 'a' && ch <= 'f') || (ch >= 'A' && ch <= 'F')) {
            assert(!is_hex_digit(hex@[k as int]));
            return false;
        }
        k = k + 1;
    }
    true
}

} // verus!
