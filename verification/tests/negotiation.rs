use peryx_ecosystem_pypi::serving::negotiate::{negotiate, Format};

fn accept(fields: &[&str]) -> Format {
    negotiate(&fields.iter().map(|field| (*field).to_owned()).collect())
}

#[test]
fn a_silent_request_gets_html() {
    assert_eq!(accept(&[]), Format::Html);
}

#[test]
fn the_best_quality_wins() {
    assert_eq!(accept(&["application/vnd.pypi.simple.v1+json"]), Format::Json);
    assert_eq!(accept(&["application/vnd.pypi.simple.v1+json;q=0.5, text/html;q=0.6"]), Format::Html);
    assert_eq!(accept(&["application/json; q=0.601, text/html; q=0.6"]), Format::Json);
    assert_eq!(accept(&["text/html;q=0.1", "APPLICATION/JSON"]), Format::Json);
}

#[test]
fn the_more_specific_range_decides() {
    assert_eq!(accept(&["application/*;q=1, application/json;q=0"]), Format::Html);
    assert_eq!(accept(&["*/*;q=0.1, text/html;q=0, application/json;q=0.2"]), Format::Json);
}

#[test]
fn ranges_out_of_form_say_nothing() {
    assert_eq!(accept(&["application/json;q=1.5"]), Format::Html);
    assert_eq!(accept(&["application/json;q=0.1234"]), Format::Html);
    assert_eq!(accept(&["application/json;q=1;q=1"]), Format::Html);
    assert_eq!(accept(&["application/json;level=1"]), Format::Html);
    assert_eq!(accept(&["application/json;q"]), Format::Html);
    assert_eq!(accept(&[";q=1, application/json"]), Format::Json);
}

#[test]
fn a_charset_asks_for_html() {
    assert_eq!(accept(&["application/json;charset=utf-8"]), Format::Html);
    assert_eq!(accept(&["text/html;q=0.9;charset=\"utf-8\", application/json;q=0.95"]), Format::Json);
    assert_eq!(accept(&["text/html;charset=latin-1, application/json;q=0.1"]), Format::Json);
}
