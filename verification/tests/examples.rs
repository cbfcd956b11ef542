use into_duration::command::SubCommand;
use into_duration::span::Span;

#[test]
fn test_examples() {
    let command = SubCommand {};
    let examples = command.examples();
    assert_eq!(examples.len(), 4);
    for example in examples {
        let span = Span::unknown();
        let output = command.run(span, &example.cell_paths, example.input, None);
        let result = output.into_value(span);
        assert_eq!(Some(result), example.result, "{}", example.example);
    }
}
