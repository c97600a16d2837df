//! Form field schema and runtime field state.
use vstd::prelude::*;
use crate::text::{is_blank, is_blank_str, to_owned_string};

verus! {

#[derive(Clone, Debug, PartialEq)]
pub enum FieldType {
    Text,
    Number,
    Amount,
    Address,
    Email,
    Password,
    Hidden,
    Checkbox,
    Select { options: Vec<(String, String)> },
    Textarea { rows: u32 },
}

#[derive(Clone, Debug)]
pub struct FieldMeta {
    pub name: String,
    pub label: String,
    pub field_type: FieldType,
    pub placeholder: Option<String>,
    pub required: bool,
    pub readonly: bool,
    pub disabled: bool,
    pub autocomplete: Option<String>,
    pub hint: Option<String>,
}

impl FieldMeta {
    pub fn new(name: &str, label: &str) -> (m: Self)
        ensures
            m.name@ == name@,
            m.label@ == label@,
            m.field_type == FieldType::Text,
            m.placeholder is None,
            !m.required,
            !m.readonly,
            !m.disabled,
            m.autocomplete is None,
            m.hint is None,
    {
        FieldMeta {
            name: to_owned_string(name),
            label: to_owned_string(label),
            field_type: FieldType::Text,
            placeholder: None,
            required: false,
            readonly: false,
            disabled: false,
            autocomplete: None,
            hint: None,
        }
    }

    pub fn required(self) -> (m: Self)
        ensures
            m == (FieldMeta { required: true, ..self }),
    {
        FieldMeta { required: true, ..self }
    }

    pub fn readonly(self) -> (m: Self)
        ensures
            m == (FieldMeta { readonly: true, ..self }),
    {
        FieldMeta { readonly: true, ..self }
    }

    pub fn disabled(self) -> (m: Self)
        ensures
            m == (FieldMeta { disabled: true, ..self }),
    {
        FieldMeta { disabled: true, ..self }
    }

    pub fn placeholder(self, p: &str) -> (m: Self)
        ensures
            m == (FieldMeta { placeholder: m.placeholder, ..self }),
            m.placeholder is Some && m.placeholder->0@ == p@,
    {
        FieldMeta { placeholder: Some(to_owned_string(p)), ..self }
    }

    pub fn hint(self, h: &str) -> (m: Self)
        ensures
            m == (FieldMeta { hint: m.hint, ..self }),
            m.hint is Some && m.hint->0@ == h@,
    {
        FieldMeta { hint: Some(to_owned_string(h)), ..self }
    }

    pub fn autocomplete(self, ac: &str) -> (m: Self)
        ensures
            m == (FieldMeta { autocomplete: m.autocomplete, ..self }),
            m.autocomplete is Some && m.autocomplete->0@ == ac@,
    {
        FieldMeta { autocomplete: Some(to_owned_string(ac)), ..self }
    }

    pub fn field_type(self, t: FieldType) -> (m: Self)
        ensures
            m == (FieldMeta { field_type: t, ..self }),
    {
        FieldMeta { field_type: t, ..self }
    }

    pub fn number(self) -> (m: Self)
        ensures
            m == (FieldMeta { field_type: FieldType::Number, ..self }),
    {
        self.field_type(FieldType::Number)
    }

    pub fn password(self) -> (m: Self)
        ensures
            m == (FieldMeta { field_type: FieldType::Password, ..self }),
    {
        self.field_type(FieldType::Password)
    }

    pub fn email(self) -> (m: Self)
        ensures
            m == (FieldMeta { field_type: FieldType::Email, ..self }),
    {
        self.field_type(FieldType::Email)
    }

    pub fn hidden(self) -> (m: Self)
        ensures
            m == (FieldMeta { field_type: FieldType::Hidden, ..self }),
    {
        self.field_type(FieldType::Hidden)
    }

    pub fn textarea(self, rows: u32) -> (m: Self)
        ensures
            m == (FieldMeta { field_type: FieldType::Textarea { rows }, ..self }),
    {
        self.field_type(FieldType::Textarea { rows })
    }

    pub fn select(self, options: Vec<(String, String)>) -> (m: Self)
        ensures
            m == (FieldMeta { field_type: FieldType::Select { options }, ..self }),
    {
        self.field_type(FieldType::Select { options })
    }
}

/// The options of a select field as (value, label) character sequences.
pub open spec fn options_view(o: Vec<(String, String)>) -> Seq<(Seq<char>, Seq<char>)> {
    o@.map_values(|p: (String, String)| (p.0@, p.1@))
}

/// The text of an optional string.
pub open spec fn opt_view(o: Option<String>) -> Option<Seq<char>> {
    match o {
        Some(s) => Some(s@),
        None => None,
    }
}

/// Two field types that render alike: the same variant, with the same options.
pub open spec fn same_type(a: FieldType, b: FieldType) -> bool {
    match a {
        FieldType::Select { options: x } => match b {
            FieldType::Select { options: y } => options_view(x) == options_view(y),
            _ => false,
        },
        _ => a == b,
    }
}

/// Two field schemas with the same content.
pub open spec fn same_meta(a: FieldMeta, b: FieldMeta) -> bool {
    &&& a.name@ == b.name@
    &&& a.label@ == b.label@
    &&& same_type(a.field_type, b.field_type)
    &&& opt_view(a.placeholder) == opt_view(b.placeholder)
    &&& a.required == b.required
    &&& a.readonly == b.readonly
    &&& a.disabled == b.disabled
    &&& opt_view(a.autocomplete) == opt_view(b.autocomplete)
    &&& opt_view(a.hint) == opt_view(b.hint)
}

fn copy_opt(o: &Option<String>) -> (r: Option<String>)
    ensures
        opt_view(r) == opt_view(*o),
{
    match o {
        Some(s) => Some(s.clone()),
        None => None,
    }
}

fn copy_type(t: &FieldType) -> (r: FieldType)
    ensures
        same_type(r, *t),
{
    match t {
        FieldType::Text => FieldType::Text,
        FieldType::Number => FieldType::Number,
        FieldType::Amount => FieldType::Amount,
        FieldType::Address => FieldType::Address,
        FieldType::Email => FieldType::Email,
        FieldType::Password => FieldType::Password,
        FieldType::Hidden => FieldType::Hidden,
        FieldType::Checkbox => FieldType::Checkbox,
        FieldType::Textarea { rows } => FieldType::Textarea { rows: *rows },
        FieldType::Select { options } => {
            let mut out: Vec<(String, String)> = Vec::new();
            let mut i: usize = 0;
            while i < options.len()
                invariant
                    i <= options@.len(),
                    options_view(out) == options_view(*options).take(i as int),
                decreases options@.len() - i,
            {
                let ghost before = out@;
                let a = options[i].0.clone();
                let b = options[i].1.clone();
                out.push((a, b));
                proof {
                    assert(out@ == before.push((a, b)));
                    assert(options_view(out) =~= options_view(*options).take(i as int).push((a@, b@)));
                    assert(options_view(*options)[i as int] == (a@, b@));
                    assert(options_view(out) =~= options_view(*options).take(i + 1));
                }
                i = i + 1;
            }
            proof {
                assert(options_view(*options).take(options@.len() as int) =~= options_view(*options));
            }
            FieldType::Select { options: out }
        },
    }
}

impl FieldMeta {
    /// A copy with the same content.
    pub(crate) fn duplicate(&self) -> (m: Self)
        ensures
            same_meta(m, *self),
    {
        FieldMeta {
            name: self.name.clone(),
            label: self.label.clone(),
            field_type: copy_type(&self.field_type),
            placeholder: copy_opt(&self.placeholder),
            required: self.required,
            readonly: self.readonly,
            disabled: self.disabled,
            autocomplete: copy_opt(&self.autocomplete),
            hint: copy_opt(&self.hint),
        }
    }
}

/// A runtime form field with value and errors.
#[derive(Clone, Debug)]
pub struct Field {
    pub meta: Option<FieldMeta>,
    pub name: String,
    pub value: String,
    pub errors: Vec<String>,
    pub touched: bool,
}

impl Field {
    pub fn new(name: &str) -> (f: Self)
        ensures
            f.name@ == name@,
            f.meta is None,
            f.value@.len() == 0,
            f.errors@.len() == 0,
            !f.touched,
    {
        Field { meta: None, name: to_owned_string(name), value: String::new(), errors: Vec::new(), touched: false }
    }

    pub fn with_value(self, v: &str) -> (f: Self)
        ensures
            f == (Field { value: f.value, ..self }),
            f.value@ == v@,
    {
        Field { value: to_owned_string(v), ..self }
    }

    pub fn with_meta(self, m: FieldMeta) -> (f: Self)
        ensures
            f == (Field { meta: Some(m), ..self }),
    {
        Field { meta: Some(m), ..self }
    }

    pub fn add_error(&mut self, e: &str)
        ensures
            final(self).errors@.len() == old(self).errors@.len() + 1,
            final(self).errors@.last()@ == e@,
            forall|i: int| 0 <= i < old(self).errors@.len() ==> final(self).errors@[i] == old(self).errors@[i],
            final(self).name == old(self).name,
            final(self).value == old(self).value,
            final(self).meta == old(self).meta,
            final(self).touched == old(self).touched,
    {
        self.errors.push(to_owned_string(e));
    }

    pub fn is_valid(&self) -> (b: bool)
        ensures
            b == (self.errors@.len() == 0),
    {
        self.errors.len() == 0
    }

    pub fn is_empty(&self) -> (b: bool)
        ensures
            b == is_blank(self.value@),
    {
        is_blank_str(self.value.as_str())
    }
}

} // verus!
