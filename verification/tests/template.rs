use correlation::template::{CompileError, Template, TemplateFactory};
use correlation::test_utils::{MockTemplate, MockTemplateFactory};

#[test]
fn test_mock_template_factory_can_generate_errors() {
    let factory = MockTemplateFactory::compile_failure();
    let expected = CompileError("ERROR".to_owned());
    let actual = factory.compile("ERROR").err().unwrap();
    assert_eq!(expected, actual);
}

#[test]
fn test_mock_template_factory_can_generate_template_which_returns_the_compiled_value() {
    let factory = MockTemplateFactory::compile_value();
    let expected = "VALUE";
    let template = factory.compile(expected).ok().unwrap();
    let actual = template.format_with_context(&[], "doesn't matter");
    assert_eq!(Some(expected.to_owned()), actual);
}

#[test]
fn test_mock_template_returns_the_expected_literal() {
    let expected = "literal";
    let template = MockTemplate::literal(expected);
    let actual = template.format_with_context(&[], "doesn't matter");
    assert_eq!(Some(expected.to_owned()), actual);
}

#[test]
fn failing_template_formats_to_nothing() {
    let template = MockTemplate::failing();
    assert_eq!(None, template.format_with_context(&[], "id"));
}
