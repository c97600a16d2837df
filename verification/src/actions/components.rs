//! Rendering of a whole form: fields, labels, errors, CSRF input and submit button.
use vstd::prelude::*;
use crate::actions::csrf::CsrfToken;
use crate::actions::field::{FieldMeta, FieldType, opt_view, options_view};
use crate::actions::form::Form;
use crate::markup::context::RenderContext;
use crate::markup::escape::{escape_attr_plain_identity, escape_html_spec};
use crate::markup::html::{HtmlWriter, attr_text, close_tag};
use crate::markup::render::Render;
use crate::text::{decimal, is_prefix, push_str, str_eq, u64_to_string};

verus! {

/// `<tag attrs>`
pub open spec fn tag_open(tag: Seq<char>, attrs: Seq<char>) -> Seq<char> {
    "<"@ + tag + attrs + ">"@
}

/// `<tag attrs />`
pub open spec fn void_tag(tag: Seq<char>, attrs: Seq<char>) -> Seq<char> {
    "<"@ + tag + attrs + " />"@
}

/// A boolean attribute, written when `b` holds.
pub open spec fn flag_text(b: bool, name: Seq<char>) -> Seq<char> {
    if b { " "@ + name } else { seq![] }
}

/// An attribute written when its value is present.
pub open spec fn opt_attr(name: Seq<char>, o: Option<Seq<char>>) -> Seq<char> {
    match o {
        Some(v) => attr_text(name, v),
        None => seq![],
    }
}

/// The element id of a field: `f-` and its name.
pub open spec fn field_id(meta: FieldMeta) -> Seq<char> {
    "f-"@ + meta.name@
}

/// The CSS class of a field's control.
pub open spec fn input_class(has_error: bool) -> Seq<char> {
    if has_error { "p-input"@ + " p-error"@ } else { "p-input"@ }
}

/// The `type` of an `<input>` for the plain field types.
pub open spec fn input_type(t: FieldType) -> Seq<char> {
    match t {
        FieldType::Password => "password"@,
        FieldType::Email => "email"@,
        FieldType::Number => "number"@,
        FieldType::Amount => "number"@,
        _ => "text"@,
    }
}

proof fn lemma_input_type_prefix(t: Seq<char>, rest: Seq<char>)
    requires
        forall|i: int| 0 <= i < t.len() ==> ('a' <= #[trigger] t[i] && t[i] <= 'z'),
    ensures
        is_prefix("<input type=\""@ + t + "\""@, void_tag("input"@, attr_text("type"@, t) + rest)),
{
    escape_attr_plain_identity(t);
    reveal_strlit("<input type=\"");
    reveal_strlit("<");
    reveal_strlit("input");
    reveal_strlit(" ");
    reveal_strlit("type");
    reveal_strlit("=\"");
    reveal_strlit("\"");
    reveal_strlit(" />");
    let p = "<input type=\""@ + t + "\""@;
    let w = void_tag("input"@, attr_text("type"@, t) + rest);
    assert(w =~= p + rest + " />"@);
    assert(w.subrange(0, p.len() as int) =~= p);
}

proof fn lemma_input_type_letters(ft: FieldType)
    ensures
        forall|i: int| 0 <= i < input_type(ft).len() ==> ('a' <= #[trigger] input_type(ft)[i] && input_type(ft)[i] <= 'z'),
{
    reveal_strlit("password");
    reveal_strlit("email");
    reveal_strlit("number");
    reveal_strlit("text");
}

proof fn lemma_plain_control(meta: FieldMeta, value: Seq<char>, has_error: bool)
    requires
        meta.field_type is Password || meta.field_type is Email || meta.field_type is Number
            || meta.field_type is Amount || meta.field_type is Text || meta.field_type is Address,
    ensures
        is_prefix("<input type=\""@ + input_type(meta.field_type) + "\""@, control_html(meta, value, has_error)),
{
    reveal(control_html);
    let t = input_type(meta.field_type);
    let attrs = plain_attrs(meta, t, value, has_error);
    let head = attr_text("type"@, t);
    let rest = attrs.skip(head.len() as int);
    assert(attrs =~= head + rest);
    assert(control_html(meta, value, has_error) == plain_html(meta, value, has_error));
    lemma_input_type_letters(meta.field_type);
    lemma_input_type_prefix(t, rest);
}

/// A field's control is an `<input>` whose `type` follows the field's type:
/// `password` for a password field, so its value is masked, `email` for an
/// email field, `number` for number and amount fields, and `text` for text
/// and address fields.
pub proof fn law_input_type(meta: FieldMeta, value: Seq<char>, has_error: bool)
    ensures
        meta.field_type is Password ==> is_prefix("<input type=\"password\""@, control_html(meta, value, has_error)),
        meta.field_type is Email ==> is_prefix("<input type=\"email\""@, control_html(meta, value, has_error)),
        (meta.field_type is Number || meta.field_type is Amount)
            ==> is_prefix("<input type=\"number\""@, control_html(meta, value, has_error)),
        (meta.field_type is Text || meta.field_type is Address)
            ==> is_prefix("<input type=\"text\""@, control_html(meta, value, has_error)),
{
    let t = meta.field_type;
    if t is Password || t is Email || t is Number || t is Amount || t is Text || t is Address {
        lemma_plain_control(meta, value, has_error);
        reveal_strlit("<input type=\"");
        reveal_strlit("\"");
        let p = "<input type=\""@ + input_type(t) + "\""@;
        if t is Password {
            reveal_strlit("password");
            reveal_strlit("<input type=\"password\"");
            assert(p =~= "<input type=\"password\""@);
        } else if t is Email {
            reveal_strlit("email");
            reveal_strlit("<input type=\"email\"");
            assert(p =~= "<input type=\"email\""@);
        } else if t is Number || t is Amount {
            reveal_strlit("number");
            reveal_strlit("<input type=\"number\"");
            assert(p =~= "<input type=\"number\""@);
        } else {
            reveal_strlit("text");
            reveal_strlit("<input type=\"text\"");
            assert(p =~= "<input type=\"text\""@);
        }
    }
}

/// The label of a field, with its required marker; nothing for hidden fields.
pub open spec fn label_html(meta: FieldMeta) -> Seq<char> {
    if meta.field_type is Hidden {
        seq![]
    } else {
        tag_open("label"@, attr_text("for"@, field_id(meta)) + attr_text("class"@, "p-label"@))
            + escape_html_spec(meta.label@)
            + (if meta.required {
                tag_open("span"@, attr_text("class"@, "p-required"@) + attr_text("aria-hidden"@, "true"@)) + " *"@
                    + close_tag("span"@)
            } else {
                seq![]
            })
            + close_tag("label"@)
    }
}

/// One `<option>` of a select whose current value is `value`.
pub open spec fn option_html(o: (Seq<char>, Seq<char>), value: Seq<char>) -> Seq<char> {
    tag_open("option"@, attr_text("value"@, o.0) + flag_text(o.0 == value, "selected"@)) + escape_html_spec(o.1)
        + close_tag("option"@)
}

/// The options of a select, in order.
pub open spec fn options_html(opts: Seq<(Seq<char>, Seq<char>)>, value: Seq<char>) -> Seq<char>
    decreases opts.len(),
{
    if opts.len() == 0 {
        seq![]
    } else {
        options_html(opts.drop_last(), value) + option_html(opts.last(), value)
    }
}

/// The id, name and class attributes shared by the visible controls.
pub open spec fn control_ident(meta: FieldMeta, has_error: bool) -> Seq<char> {
    attr_text("id"@, field_id(meta)) + attr_text("name"@, meta.name@) + attr_text("class"@, input_class(has_error))
}

/// A hidden input carrying the value.
pub open spec fn hidden_html(meta: FieldMeta, value: Seq<char>) -> Seq<char> {
    void_tag("input"@, attr_text("type"@, "hidden"@) + attr_text("name"@, meta.name@) + attr_text("value"@, value))
}

/// The attributes of a textarea.
pub open spec fn textarea_attrs(meta: FieldMeta, rows: u32, has_error: bool) -> Seq<char> {
    control_ident(meta, has_error) + attr_text("rows"@, decimal(rows as nat)) + flag_text(meta.required, "required"@)
        + flag_text(meta.readonly, "readonly"@) + flag_text(meta.disabled, "disabled"@)
        + opt_attr("placeholder"@, opt_view(meta.placeholder))
}

/// A textarea holding the value.
pub open spec fn textarea_html(meta: FieldMeta, rows: u32, value: Seq<char>, has_error: bool) -> Seq<char> {
    tag_open("textarea"@, textarea_attrs(meta, rows, has_error)) + escape_html_spec(value) + close_tag("textarea"@)
}

/// A select with its options, the one equal to the value selected.
pub open spec fn select_html(meta: FieldMeta, opts: Seq<(Seq<char>, Seq<char>)>, value: Seq<char>, has_error: bool) -> Seq<char> {
    tag_open(
        "select"@,
        control_ident(meta, has_error) + flag_text(meta.required, "required"@) + flag_text(meta.disabled, "disabled"@),
    ) + options_html(opts, value) + close_tag("select"@)
}

/// A checkbox, checked when the value is `1` or `true`.
pub open spec fn checkbox_html(meta: FieldMeta, value: Seq<char>) -> Seq<char> {
    void_tag(
        "input"@,
        attr_text("type"@, "checkbox"@) + attr_text("id"@, field_id(meta)) + attr_text("name"@, meta.name@)
            + attr_text("value"@, "1"@) + flag_text(value == "1"@ || value == "true"@, "checked"@),
    )
}

/// The attributes of a plain input.
pub open spec fn plain_attrs(meta: FieldMeta, type_text: Seq<char>, value: Seq<char>, has_error: bool) -> Seq<char> {
    attr_text("type"@, type_text) + control_ident(meta, has_error) + attr_text("value"@, value)
        + flag_text(meta.required, "required"@) + flag_text(meta.readonly, "readonly"@)
        + flag_text(meta.disabled, "disabled"@) + opt_attr("placeholder"@, opt_view(meta.placeholder))
        + opt_attr("autocomplete"@, opt_view(meta.autocomplete))
        + (if has_error { attr_text("aria-invalid"@, "true"@) } else { seq![] })
}

/// A plain input of the field's type.
pub open spec fn plain_html(meta: FieldMeta, value: Seq<char>, has_error: bool) -> Seq<char> {
    void_tag("input"@, plain_attrs(meta, input_type(meta.field_type), value, has_error))
}

/// The control of a field: an input, a textarea or a select.
#[verifier::opaque]
pub open spec fn control_html(meta: FieldMeta, value: Seq<char>, has_error: bool) -> Seq<char> {
    match meta.field_type {
        FieldType::Hidden => hidden_html(meta, value),
        FieldType::Textarea { rows } => textarea_html(meta, rows, value, has_error),
        FieldType::Select { options } => select_html(meta, options_view(options), value, has_error),
        FieldType::Checkbox => checkbox_html(meta, value),
        _ => plain_html(meta, value, has_error),
    }
}

/// The hint of a field, shown only while it has no errors.
pub open spec fn hint_html(meta: FieldMeta, has_error: bool) -> Seq<char> {
    match opt_view(meta.hint) {
        Some(h) => if has_error {
            seq![]
        } else {
            tag_open("p"@, attr_text("class"@, "p-field-hint"@)) + escape_html_spec(h) + close_tag("p"@)
        },
        None => seq![],
    }
}

/// One error message of a field.
pub open spec fn error_html(e: Seq<char>) -> Seq<char> {
    tag_open("p"@, attr_text("class"@, "p-field-error"@) + attr_text("role"@, "alert"@)) + escape_html_spec(e)
        + close_tag("p"@)
}

/// The error messages of a field, in order.
pub open spec fn errors_html(errs: Seq<Seq<char>>) -> Seq<char>
    decreases errs.len(),
{
    if errs.len() == 0 {
        seq![]
    } else {
        errors_html(errs.drop_last()) + error_html(errs.last())
    }
}

/// One field of a form: wrapper, label, control, hint and errors.
pub open spec fn field_html(meta: FieldMeta, form: Form) -> Seq<char> {
    let value = form.value_of(meta.name@);
    let errs = form.errors_of(meta.name@);
    let has_error = errs.len() > 0;
    tag_open("div"@, attr_text("class"@, "p-field"@)) + label_html(meta) + control_html(meta, value, has_error)
        + hint_html(meta, has_error) + errors_html(errs) + close_tag("div"@)
}

/// The structure of a rendered field: a `p-field` wrapper around the label
/// (written exactly when the field is not hidden, its text escaped), the
/// control, the hint (written exactly when there is one and no error) and one
/// `alert` paragraph per error message, in order and escaped.
pub proof fn law_field_structure(meta: FieldMeta, form: Form)
    ensures
        ({
            let value = form.value_of(meta.name@);
            let errs = form.errors_of(meta.name@);
            let has_error = errs.len() > 0;
            &&& field_html(meta, form) == tag_open("div"@, attr_text("class"@, "p-field"@)) + label_html(meta)
                + control_html(meta, value, has_error) + hint_html(meta, has_error) + errors_html(errs)
                + close_tag("div"@)
            &&& (label_html(meta).len() == 0 <==> meta.field_type is Hidden)
            &&& (hint_html(meta, has_error).len() > 0 <==> (meta.hint is Some && !has_error))
            &&& forall|i: int| 0 <= i <= errs.len() ==> #[trigger] errors_html(errs.take(i)) + errors_html(errs.skip(i))
                == errors_html(errs)
        }),
{
    let errs = form.errors_of(meta.name@);
    reveal_strlit("label");
    reveal_strlit("p");
    reveal_strlit("</");
    assert(close_tag("label"@).len() > 0);
    assert(close_tag("p"@).len() > 0);
    assert forall|i: int| 0 <= i <= errs.len() implies #[trigger] errors_html(errs.take(i)) + errors_html(errs.skip(i))
        == errors_html(errs) by {
        lemma_errors_split(errs, i);
    }
}

proof fn lemma_errors_split(errs: Seq<Seq<char>>, i: int)
    requires
        0 <= i <= errs.len(),
    ensures
        errors_html(errs.take(i)) + errors_html(errs.skip(i)) == errors_html(errs),
    decreases errs.len() - i,
{
    if i == errs.len() {
        assert(errs.take(i) =~= errs);
        assert(errs.skip(i) =~= Seq::<Seq<char>>::empty());
        assert(errors_html(errs.skip(i)) =~= Seq::<char>::empty());
    } else {
        lemma_errors_split(errs, i + 1);
        lemma_errors_prepend(errs.skip(i));
        assert(errs.skip(i).drop_first() =~= errs.skip(i + 1));
        assert(errs.take(i + 1) =~= errs.take(i).push(errs[i]));
        assert(errs.take(i + 1).drop_last() =~= errs.take(i));
        assert(errs.skip(i)[0] == errs[i]);
    }
}

proof fn lemma_errors_prepend(errs: Seq<Seq<char>>)
    requires
        errs.len() > 0,
    ensures
        errors_html(errs) == error_html(errs[0]) + errors_html(errs.drop_first()),
    decreases errs.len(),
{
    if errs.len() == 1 {
        assert(errs.drop_first() =~= Seq::<Seq<char>>::empty());
        assert(errs.drop_last() =~= Seq::<Seq<char>>::empty());
        assert(errors_html(Seq::<Seq<char>>::empty()) =~= Seq::<char>::empty());
    } else {
        lemma_errors_prepend(errs.drop_last());
        assert(errs.drop_last().drop_first() =~= errs.drop_first().drop_last());
        assert(errs.drop_first().last() == errs.last());
    }
}

/// The fields of a form, in order.
pub open spec fn fields_html(fields: Seq<FieldMeta>, form: Form) -> Seq<char>
    decreases fields.len(),
{
    if fields.len() == 0 {
        seq![]
    } else {
        fields_html(fields.drop_last(), form) + field_html(fields.last(), form)
    }
}

/// A result strip: a `div` with a class and a role around a message.
pub open spec fn strip_html(class: Seq<char>, role: Seq<char>, msg: Seq<char>) -> Seq<char> {
    tag_open("div"@, attr_text("class"@, class) + attr_text("role"@, role)) + escape_html_spec(msg) + close_tag("div"@)
}

/// The hidden CSRF input, when a token is given.
pub open spec fn csrf_html(token: Option<Seq<char>>) -> Seq<char> {
    match token {
        Some(v) => void_tag(
            "input"@,
            attr_text("type"@, "hidden"@) + attr_text("name"@, "_csrf"@) + attr_text("value"@, v),
        ),
        None => seq![],
    }
}

/// Everything between the opening `<form>` and the fields.
pub open spec fn form_head(form: Form, token: Option<Seq<char>>) -> Seq<char> {
    tag_open(
        "form"@,
        attr_text("method"@, form.method@) + attr_text("action"@, form.action@) + attr_text("class"@, "p-form"@)
            + attr_text("novalidate"@, "novalidate"@),
    ) + csrf_html(token) + match opt_view(form.global_error) {
        Some(e) => strip_html("p-result-strip p-err"@, "alert"@, e),
        None => seq![],
    } + match opt_view(form.success) {
        Some(s) => strip_html("p-result-strip p-ok"@, "status"@, s),
        None => seq![],
    }
}

/// A whole form with its submit button.
pub open spec fn form_html(form: Form, token: Option<Seq<char>>, submit: Seq<char>) -> Seq<char> {
    form_head(form, token) + fields_html(form.fields@, form) + tag_open(
        "button"@,
        attr_text("type"@, "submit"@) + attr_text("class"@, "p-btn p-btn-primary"@),
    ) + escape_html_spec(submit) + close_tag("button"@) + close_tag("form"@)
}

/// Renders a complete Form element with all fields, errors, and CSRF.
pub struct FormComponent<'a> {
    pub form: &'a Form,
    pub csrf_token: Option<&'a CsrfToken>,
    pub submit_label: &'a str,
}

/// The value of an optional token.
pub open spec fn token_text(t: Option<&CsrfToken>) -> Option<Seq<char>> {
    match t {
        Some(t) => Some(t.value@),
        None => None,
    }
}

impl<'a> Render for FormComponent<'a> {
    open spec fn rendered(&self, ctx: RenderContext) -> Seq<char> {
        form_html(*self.form, token_text(self.csrf_token), self.submit_label@)
    }

    #[verifier::spinoff_prover]
    #[verifier::rlimit(50)]
    fn render(&self, out: &mut HtmlWriter, ctx: &RenderContext) {
        let ghost s0 = out.html();
        write_form_head(out, self.form, self.csrf_token);
        let ghost s1 = out.html();
        let mut i: usize = 0;
        while i < self.form.fields.len()
            invariant
                i <= self.form.fields@.len(),
                out.html() == s1 + fields_html(self.form.fields@.take(i as int), *self.form),
            decreases self.form.fields@.len() - i,
        {
            render_field(out, &self.form.fields[i], self.form, ctx);
            proof {
                let fs = self.form.fields@;
                assert(fs.take(i + 1).drop_last() == fs.take(i as int));
                assert(fs.take(i + 1).last() == fs[i as int]);
            }
            i = i + 1;
        }
        proof {
            assert(self.form.fields@.take(self.form.fields@.len() as int) == self.form.fields@);
        }
        let ghost s2 = out.html();
        out.open_tag_start("button");
        out.attr("type", "submit");
        out.attr("class", "p-btn p-btn-primary");
        out.tag_end("button");
        out.text(self.submit_label);
        out.close("button");
        out.close("form");
        proof {
            lemma_form_shape(out.html(), s0, form_head(*self.form, token_text(self.csrf_token)),
                fields_html(self.form.fields@, *self.form), "<"@, "button"@, attr_text("type"@, "submit"@),
                attr_text("class"@, "p-btn p-btn-primary"@), ">"@, escape_html_spec(self.submit_label@), "</"@,
                "button"@, ">"@, "</"@, "form"@, ">"@);
        }
    }
}

fn write_strip(out: &mut HtmlWriter, class: &str, role: &str, msg: &str)
    ensures
        final(out).html() == old(out).html() + strip_html(class@, role@, msg@),
{
    let ghost s0 = out.html();
    out.open_tag_start("div");
    out.attr("class", class);
    out.attr("role", role);
    out.tag_end("div");
    out.text(msg);
    out.close("div");
    assert(out.html() =~= s0 + strip_html(class@, role@, msg@));
}

/// Regroups a chain of four appended pieces.
proof fn lemma_regroup4(s0: Seq<char>, a: Seq<char>, b: Seq<char>, c: Seq<char>, d: Seq<char>)
    ensures
        s0 + a + b + c + d == s0 + (a + b + c + d),
{
    assert(s0 + a + b + c + d =~= s0 + (a + b + c + d));
}

/// Regroups a chain of three appended pieces.
proof fn lemma_regroup3(s0: Seq<char>, a: Seq<char>, b: Seq<char>, c: Seq<char>)
    ensures
        s0 + a + b + c == s0 + (a + b + c),
{
    assert(s0 + a + b + c =~= s0 + (a + b + c));
}

/// Regroups six pieces appended one after another.
proof fn lemma_chain6(h: Seq<char>, s1: Seq<char>, a1: Seq<char>, a2: Seq<char>, a3: Seq<char>, a4: Seq<char>,
    a5: Seq<char>, a6: Seq<char>)
    requires
        h == s1 + a1 + a2 + a3 + a4 + a5 + a6,
    ensures
        h == s1 + (a1 + a2 + a3 + a4 + a5 + a6),
{
    assert(s1 + a1 + a2 + a3 + a4 + a5 + a6 =~= s1 + (a1 + a2 + a3 + a4 + a5 + a6));
}

/// Regroups nine pieces appended one after another.
proof fn lemma_chain9(h: Seq<char>, s1: Seq<char>, a1: Seq<char>, a2: Seq<char>, a3: Seq<char>, a4: Seq<char>,
    a5: Seq<char>, a6: Seq<char>, a7: Seq<char>, a8: Seq<char>, a9: Seq<char>)
    requires
        h == s1 + a1 + a2 + a3 + a4 + a5 + a6 + a7 + a8 + a9,
    ensures
        h == s1 + (a1 + a2 + a3 + a4 + a5 + a6 + a7 + a8 + a9),
{
    assert(s1 + a1 + a2 + a3 + a4 + a5 + a6 + a7 + a8 + a9 =~= s1 + (a1 + a2 + a3 + a4 + a5 + a6 + a7 + a8 + a9));
}

/// Regroups the pieces a textarea is written in.
proof fn lemma_textarea_shape(h: Seq<char>, s0: Seq<char>, a: Seq<char>, b: Seq<char>, c: Seq<char>, d: Seq<char>,
    e: Seq<char>, f: Seq<char>, g: Seq<char>, i: Seq<char>)
    requires
        h == s0 + a + b + c + d + e + f + g + i,
    ensures
        h == s0 + ((a + b + c + d) + e + (f + g + i)),
{
    assert(s0 + a + b + c + d + e + f + g + i =~= s0 + ((a + b + c + d) + e + (f + g + i)));
}

/// Regroups the pieces the opening tag of a select is written in.
proof fn lemma_select_open_shape(h: Seq<char>, s0: Seq<char>, a: Seq<char>, b: Seq<char>, c: Seq<char>, d: Seq<char>,
    e: Seq<char>, f: Seq<char>)
    requires
        h == s0 + a + b + c + d + e + f,
    ensures
        h == s0 + (a + b + (c + d + e) + f),
{
    assert(s0 + a + b + c + d + e + f =~= s0 + (a + b + (c + d + e) + f));
}

/// Regroups the pieces the tail of a form is written in.
proof fn lemma_form_shape(h: Seq<char>, s0: Seq<char>, head: Seq<char>, fields: Seq<char>, a: Seq<char>, b: Seq<char>,
    c: Seq<char>, d: Seq<char>, e: Seq<char>, f: Seq<char>, g: Seq<char>, i: Seq<char>, j: Seq<char>, k: Seq<char>,
    l: Seq<char>, m: Seq<char>)
    requires
        h == s0 + head + fields + a + b + c + d + e + f + g + i + j + k + l + m,
    ensures
        h == s0 + (head + fields + (a + b + (c + d) + e) + f + (g + i + j) + (k + l + m)),
{
    assert(s0 + head + fields + a + b + c + d + e + f + g + i + j + k + l + m
        =~= s0 + (head + fields + (a + b + (c + d) + e) + f + (g + i + j) + (k + l + m)));
}

fn write_form_open(out: &mut HtmlWriter, form: &Form)
    ensures
        final(out).html() == old(out).html() + tag_open(
            "form"@,
            attr_text("method"@, form.method@) + attr_text("action"@, form.action@) + attr_text("class"@, "p-form"@)
                + attr_text("novalidate"@, "novalidate"@),
        ),
{
    let ghost s0 = out.html();
    out.open_tag_start("form");
    out.attr("method", form.method.as_str());
    out.attr("action", form.action.as_str());
    out.attr("class", "p-form");
    out.attr("novalidate", "novalidate");
    out.tag_end("form");
    assert(out.html() =~= s0 + tag_open(
        "form"@,
        attr_text("method"@, form.method@) + attr_text("action"@, form.action@) + attr_text("class"@, "p-form"@)
            + attr_text("novalidate"@, "novalidate"@),
    ));
}

fn write_csrf(out: &mut HtmlWriter, token: Option<&CsrfToken>)
    ensures
        final(out).html() == old(out).html() + csrf_html(token_text(token)),
{
    let ghost s1 = out.html();
    if let Some(csrf) = token {
        out.open_tag_start("input");
        out.attr("type", "hidden");
        out.attr("name", "_csrf");
        out.attr("value", csrf.value.as_str());
        out.tag_self_close();
    }
    assert(out.html() =~= s1 + csrf_html(token_text(token)));
}

fn write_form_head(out: &mut HtmlWriter, form: &Form, token: Option<&CsrfToken>)
    ensures
        final(out).html() == old(out).html() + form_head(*form, token_text(token)),
{
    let ghost s0 = out.html();
    write_form_open(out, form);
    write_csrf(out, token);
    let ghost s2 = out.html();
    if let Some(err) = &form.global_error {
        write_strip(out, "p-result-strip p-err", "alert", err.as_str());
    }
    let ghost g = match opt_view(form.global_error) {
        Some(e) => strip_html("p-result-strip p-err"@, "alert"@, e),
        None => seq![],
    };
    assert(out.html() =~= s2 + g);
    let ghost s3 = out.html();
    if let Some(ok) = &form.success {
        write_strip(out, "p-result-strip p-ok", "status", ok.as_str());
    }
    let ghost u = match opt_view(form.success) {
        Some(s) => strip_html("p-result-strip p-ok"@, "status"@, s),
        None => seq![],
    };
    assert(out.html() =~= s3 + u);
    proof {
        let t = tag_open(
            "form"@,
            attr_text("method"@, form.method@) + attr_text("action"@, form.action@) + attr_text("class"@, "p-form"@)
                + attr_text("novalidate"@, "novalidate"@),
        );
        lemma_regroup4(s0, t, csrf_html(token_text(token)), g, u);
    }
}

#[verifier::spinoff_prover]
#[verifier::rlimit(50)]
fn write_label(out: &mut HtmlWriter, meta: &FieldMeta, id: &str)
    requires
        id@ == field_id(*meta),
    ensures
        final(out).html() == old(out).html() + label_html(*meta),
{
    let ghost s0 = out.html();
    if let FieldType::Hidden = meta.field_type {
        assert(out.html() =~= s0 + label_html(*meta));
        return;
    }
    out.open_tag_start("label");
    out.attr("for", id);
    out.attr("class", "p-label");
    out.tag_end("label");
    out.text(meta.label.as_str());
    let ghost s1 = out.html();
    if meta.required {
        out.open_tag_start("span");
        out.attr("class", "p-required");
        out.attr("aria-hidden", "true");
        out.tag_end("span");
        out.raw(" *");
        out.close("span");
    }
    let ghost req = if meta.required {
        tag_open("span"@, attr_text("class"@, "p-required"@) + attr_text("aria-hidden"@, "true"@)) + " *"@
            + close_tag("span"@)
    } else {
        seq![]
    };
    assert(out.html() =~= s1 + req);
    out.close("label");
    assert(out.html() =~= s0 + label_html(*meta));
}

fn write_flag(out: &mut HtmlWriter, b: bool, name: &str)
    ensures
        final(out).html() == old(out).html() + flag_text(b, name@),
{
    let ghost s0 = out.html();
    if b {
        out.attr_bool(name);
    }
    assert(out.html() =~= s0 + flag_text(b, name@));
}

fn write_opt_attr(out: &mut HtmlWriter, name: &str, o: &Option<String>)
    ensures
        final(out).html() == old(out).html() + opt_attr(name@, opt_view(*o)),
{
    let ghost s0 = out.html();
    if let Some(v) = o {
        out.attr(name, v.as_str());
    }
    assert(out.html() =~= s0 + opt_attr(name@, opt_view(*o)));
}

fn write_ident(out: &mut HtmlWriter, meta: &FieldMeta, id: &str, class: &str, has_error: bool)
    requires
        id@ == field_id(*meta),
        class@ == input_class(has_error),
    ensures
        final(out).html() == old(out).html() + control_ident(*meta, has_error),
{
    let ghost s0 = out.html();
    out.attr("id", id);
    out.attr("name", meta.name.as_str());
    out.attr("class", class);
    assert(out.html() =~= s0 + control_ident(*meta, has_error));
}

fn write_options(out: &mut HtmlWriter, options: &Vec<(String, String)>, value: &str)
    ensures
        final(out).html() == old(out).html() + options_html(options_view(*options), value@),
{
    let ghost s0 = out.html();
    let ghost ov = options_view(*options);
    let mut i: usize = 0;
    while i < options.len()
        invariant
            i <= options@.len(),
            ov == options_view(*options),
            out.html() == s0 + options_html(ov.take(i as int), value@),
        decreases options@.len() - i,
    {
        let ghost si = out.html();
        let opt_val = options[i].0.as_str();
        let opt_label = options[i].1.as_str();
        out.open_tag_start("option");
        out.attr("value", opt_val);
        write_flag(out, str_eq(opt_val, value), "selected");
        out.tag_end("option");
        out.text(opt_label);
        out.close("option");
        proof {
            assert(ov[i as int] == (opt_val@, opt_label@));
            assert(out.html() =~= si + option_html(ov[i as int], value@));
            assert(ov.take(i + 1).drop_last() == ov.take(i as int));
            assert(ov.take(i + 1).last() == ov[i as int]);
        }
        i = i + 1;
    }
    proof {
        assert(ov.take(ov.len() as int) == ov);
    }
}

fn write_control(out: &mut HtmlWriter, meta: &FieldMeta, value: &str, has_error: bool, id: &str, class: &str)
    requires
        id@ == field_id(*meta),
        class@ == input_class(has_error),
    ensures
        final(out).html() == old(out).html() + control_html(*meta, value@, has_error),
{
    reveal(control_html);
    match &meta.field_type {
        FieldType::Hidden => write_hidden(out, meta, value),
        FieldType::Textarea { rows } => write_textarea(out, meta, *rows, value, has_error, id, class),
        FieldType::Select { options } => write_select(out, meta, options, value, has_error, id, class),
        FieldType::Checkbox => write_checkbox(out, meta, value, id),
        _ => {
            let type_str = match &meta.field_type {
                FieldType::Password => "password",
                FieldType::Email => "email",
                FieldType::Number | FieldType::Amount => "number",
                _ => "text",
            };
            assert(type_str@ == input_type(meta.field_type));
            write_plain_input(out, meta, value, has_error, id, class, type_str);
        },
    }
}

fn write_hidden(out: &mut HtmlWriter, meta: &FieldMeta, value: &str)
    ensures
        final(out).html() == old(out).html() + hidden_html(*meta, value@),
{
    let ghost s0 = out.html();
    out.open_tag_start("input");
    out.attr("type", "hidden");
    out.attr("name", meta.name.as_str());
    out.attr("value", value);
    out.tag_self_close();
    assert(out.html() =~= s0 + hidden_html(*meta, value@));
}

fn write_textarea(out: &mut HtmlWriter, meta: &FieldMeta, rows: u32, value: &str, has_error: bool, id: &str, class: &str)
    requires
        id@ == field_id(*meta),
        class@ == input_class(has_error),
    ensures
        final(out).html() == old(out).html() + textarea_html(*meta, rows, value@, has_error),
{
    let ghost s0 = out.html();
    out.open_tag_start("textarea");
    let ghost s1 = out.html();
    write_ident(out, meta, id, class, has_error);
    let rows_text = u64_to_string(rows as u64);
    out.attr("rows", rows_text.as_str());
    write_flag(out, meta.required, "required");
    write_flag(out, meta.readonly, "readonly");
    write_flag(out, meta.disabled, "disabled");
    write_opt_attr(out, "placeholder", &meta.placeholder);
    let ghost s2 = out.html();
    proof {
        let a1 = control_ident(*meta, has_error);
        let a2 = attr_text("rows"@, decimal(rows as nat));
        let a3 = flag_text(meta.required, "required"@);
        let a4 = flag_text(meta.readonly, "readonly"@);
        let a5 = flag_text(meta.disabled, "disabled"@);
        let a6 = opt_attr("placeholder"@, opt_view(meta.placeholder));
        lemma_chain6(s2, s1, a1, a2, a3, a4, a5, a6);
    }
    out.tag_end("textarea");
    out.text(value);
    out.close("textarea");
    proof {
        lemma_textarea_shape(out.html(), s0, "<"@, "textarea"@, textarea_attrs(*meta, rows, has_error), ">"@,
            escape_html_spec(value@), "</"@, "textarea"@, ">"@);
    }
}

fn write_select(out: &mut HtmlWriter, meta: &FieldMeta, options: &Vec<(String, String)>, value: &str, has_error: bool,
    id: &str, class: &str)
    requires
        id@ == field_id(*meta),
        class@ == input_class(has_error),
    ensures
        final(out).html() == old(out).html() + select_html(*meta, options_view(*options), value@, has_error),
{
    let ghost s0 = out.html();
    out.open_tag_start("select");
    write_ident(out, meta, id, class, has_error);
    write_flag(out, meta.required, "required");
    write_flag(out, meta.disabled, "disabled");
    out.tag_end("select");
    let ghost s1 = out.html();
    proof {
        lemma_select_open_shape(s1, s0, "<"@, "select"@, control_ident(*meta, has_error),
            flag_text(meta.required, "required"@), flag_text(meta.disabled, "disabled"@), ">"@);
    }
    write_options(out, options, value);
    out.close("select");
    proof {
        lemma_regroup3(s0, tag_open(
            "select"@,
            control_ident(*meta, has_error) + flag_text(meta.required, "required"@) + flag_text(meta.disabled, "disabled"@),
        ), options_html(options_view(*options), value@), close_tag("select"@));
    }
}

fn write_checkbox(out: &mut HtmlWriter, meta: &FieldMeta, value: &str, id: &str)
    requires
        id@ == field_id(*meta),
    ensures
        final(out).html() == old(out).html() + checkbox_html(*meta, value@),
{
    let ghost s0 = out.html();
    out.open_tag_start("input");
    out.attr("type", "checkbox");
    out.attr("id", id);
    out.attr("name", meta.name.as_str());
    out.attr("value", "1");
    let one = str_eq(value, "1");
    let yes = str_eq(value, "true");
    write_flag(out, one || yes, "checked");
    out.tag_self_close();
    assert(out.html() =~= s0 + checkbox_html(*meta, value@));
}

#[verifier::spinoff_prover]
#[verifier::rlimit(60)]
fn write_plain_input(out: &mut HtmlWriter, meta: &FieldMeta, value: &str, has_error: bool, id: &str, class: &str,
    type_str: &str)
    requires
        id@ == field_id(*meta),
        class@ == input_class(has_error),
        type_str@ == input_type(meta.field_type),
    ensures
        final(out).html() == old(out).html() + plain_html(*meta, value@, has_error),
{
    let ghost s0 = out.html();
    out.open_tag_start("input");
    let ghost s1 = out.html();
    out.attr("type", type_str);
    write_ident(out, meta, id, class, has_error);
    out.attr("value", value);
    write_flag(out, meta.required, "required");
    write_flag(out, meta.readonly, "readonly");
    write_flag(out, meta.disabled, "disabled");
    write_opt_attr(out, "placeholder", &meta.placeholder);
    write_opt_attr(out, "autocomplete", &meta.autocomplete);
    let ghost s2 = out.html();
    if has_error {
        out.attr("aria-invalid", "true");
    }
    let ghost a9 = if has_error { attr_text("aria-invalid"@, "true"@) } else { seq![] };
    assert(out.html() =~= s2 + a9);
    let ghost s3 = out.html();
    proof {
        let a1 = attr_text("type"@, type_str@);
        let a2 = control_ident(*meta, has_error);
        let a3 = attr_text("value"@, value@);
        let a4 = flag_text(meta.required, "required"@);
        let a5 = flag_text(meta.readonly, "readonly"@);
        let a6 = flag_text(meta.disabled, "disabled"@);
        let a7 = opt_attr("placeholder"@, opt_view(meta.placeholder));
        let a8 = opt_attr("autocomplete"@, opt_view(meta.autocomplete));
        lemma_chain9(s3, s1, a1, a2, a3, a4, a5, a6, a7, a8, a9);
    }
    out.tag_self_close();
    proof {
        lemma_regroup3(s0, "<"@ + "input"@, plain_attrs(*meta, type_str@, value@, has_error), " />"@);
    }
}

fn write_hint(out: &mut HtmlWriter, meta: &FieldMeta, has_error: bool)
    ensures
        final(out).html() == old(out).html() + hint_html(*meta, has_error),
{
    let ghost s0 = out.html();
    if let Some(hint) = &meta.hint {
        if !has_error {
            out.open_tag_start("p");
            out.attr("class", "p-field-hint");
            out.tag_end("p");
            out.text(hint.as_str());
            out.close("p");
        }
    }
    assert(out.html() =~= s0 + hint_html(*meta, has_error));
}

fn write_errors(out: &mut HtmlWriter, errors: &[String])
    ensures
        final(out).html() == old(out).html() + errors_html(errors@.map_values(|s: String| s@)),
{
    let ghost s0 = out.html();
    let ghost ev = errors@.map_values(|s: String| s@);
    let mut i: usize = 0;
    while i < errors.len()
        invariant
            i <= errors@.len(),
            ev == errors@.map_values(|s: String| s@),
            out.html() == s0 + errors_html(ev.take(i as int)),
        decreases errors@.len() - i,
    {
        let ghost si = out.html();
        out.open_tag_start("p");
        out.attr("class", "p-field-error");
        out.attr("role", "alert");
        out.tag_end("p");
        out.text(errors[i].as_str());
        out.close("p");
        proof {
            assert(out.html() =~= si + error_html(ev[i as int]));
            assert(ev.take(i + 1).drop_last() == ev.take(i as int));
            assert(ev.take(i + 1).last() == ev[i as int]);
        }
        i = i + 1;
    }
    proof {
        assert(ev.take(ev.len() as int) == ev);
    }
}

/// Renders one field of `form`: its label, control, hint and errors.
#[verifier::spinoff_prover]
#[verifier::rlimit(100)]
pub fn render_field(out: &mut HtmlWriter, meta: &FieldMeta, form: &Form, _ctx: &RenderContext)
    ensures
        final(out).html() == old(out).html() + field_html(*meta, *form),
{
    let ghost s0 = out.html();
    let value = form.get_value(meta.name.as_str());
    let errors = form.get_errors(meta.name.as_str());
    let has_error = errors.len() != 0;
    let ghost errs = form.errors_of(meta.name@);
    assert(errors@.map_values(|s: String| s@) == errs);
    assert(has_error == (errs.len() > 0));

    out.open_tag_start("div");
    out.attr("class", "p-field");
    out.tag_end("div");

    let mut id = String::new();
    id.append("f-");
    push_str(&mut id, meta.name.as_str());
    assert(id@ == field_id(*meta));
    let ghost s1 = out.html();
    write_label(out, meta, id.as_str());

    let mut class = String::new();
    class.append("p-input");
    if has_error {
        class.append(" p-error");
    }
    assert(class@ == input_class(has_error));
    let ghost s2 = out.html();
    write_control(out, meta, value, has_error, id.as_str(), class.as_str());
    let ghost s3 = out.html();
    write_hint(out, meta, has_error);
    let ghost s4 = out.html();
    write_errors(out, errors);
    let ghost s5 = out.html();
    out.close("div");
    proof {
        assert(s1 =~= s0 + tag_open("div"@, attr_text("class"@, "p-field"@)));
        assert(out.html() =~= s0 + field_html(*meta, *form));
    }
}

} // verus!
