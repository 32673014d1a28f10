use orgtools::sexp::format_sexp;

#[test]
fn test_format_sexp_indents_nested_nodes() {
    let out = format_sexp(b"(document (section))");
    assert_eq!(
        String::from_utf8(out).unwrap(),
        "(document \n  (section\n  )\n)"
    );
}

#[test]
fn test_format_sexp_collapses_spaces_outside_quotes() {
    let out = format_sexp(b"(a  b   \"x  y\")");
    assert_eq!(String::from_utf8(out).unwrap(), "(a b \"x  y\"\n)");
}
