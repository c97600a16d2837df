use polish::actions::components::{render_field, FormComponent};
use polish::actions::csrf::CsrfToken;
use polish::actions::field::FieldMeta;
use polish::actions::form::{Form, ParsedForm};
use polish::actions::validator::Validator;
use polish::markup::context::RenderContext;
use polish::markup::html::HtmlWriter;
use polish::markup::render::Render;

#[test]
fn field_with_error_renders_label_input_and_message() {
    let meta = FieldMeta::new("amount", "Amount").required();
    let values = ParsedForm::from_query("amount=5%3C");
    let errs = Validator::new().max_len("amount", 1).validate(&values);
    let form = Form::new("pay", "/pay").field(meta.clone()).with_values(&values).with_errors(errs);
    let mut w = HtmlWriter::new();
    render_field(&mut w, &meta, &form, &RenderContext::default());
    assert_eq!(
        w.finish(),
        "<div class=\"p-field\"><label for=\"f-amount\" class=\"p-label\">Amount\
<span class=\"p-required\" aria-hidden=\"true\"> *</span></label>\
<input type=\"text\" id=\"f-amount\" name=\"amount\" class=\"p-input p-error\" value=\"5&lt;\" required aria-invalid=\"true\" />\
<p class=\"p-field-error\" role=\"alert\">amount must be at most 1 characters</p></div>"
    );
}

#[test]
fn form_component_wraps_fields_with_csrf_and_submit() {
    let form = Form::new("pay", "/pay").field(FieldMeta::new("note", "Note").hidden()).with_global_error("Try again");
    let token = CsrfToken { value: "tok".to_string(), expires_at: 0 };
    let c = FormComponent { form: &form, csrf_token: Some(&token), submit_label: "Send" };
    let html = c.to_html(&RenderContext::default());
    assert_eq!(
        html,
        "<form method=\"POST\" action=\"/pay\" class=\"p-form\" novalidate=\"novalidate\">\
<input type=\"hidden\" name=\"_csrf\" value=\"tok\" />\
<div class=\"p-result-strip p-err\" role=\"alert\">Try again</div>\
<div class=\"p-field\"><input type=\"hidden\" name=\"note\" value=\"\" /></div>\
<button type=\"submit\" class=\"p-btn p-btn-primary\">Send</button></form>"
    );
}
