use stresster::{
    produce_output, JSONProducer, OutputFormat, OutputProducer, RenderedOutput, TableProducer,
    Tally,
};

fn json_text(r: RenderedOutput) -> String {
    match r {
        RenderedOutput::Json(s) => s,
        RenderedOutput::Table(_) => panic!("expected the JSON rendering"),
    }
}

fn table_rows(r: RenderedOutput) -> Vec<(String, String)> {
    match r {
        RenderedOutput::Table(rows) => rows,
        RenderedOutput::Json(_) => panic!("expected the table rendering"),
    }
}

#[test]
fn empty_tally_renders_as_empty_object() {
    let t = Tally::new();
    assert_eq!(json_text(produce_output(OutputFormat::Json, &t)), "{}");
}

#[test]
fn single_entry_renders_pretty_printed() {
    let mut t = Tally::new();
    for _ in 0..5 {
        t.increment(200);
    }
    assert_eq!(
        json_text(produce_output(OutputFormat::Json, &t)),
        "{\n  \"200\": 5\n}"
    );
}

#[test]
fn entries_render_in_ascending_code_order() {
    let mut t = Tally::new();
    t.increment(204);
    t.increment(0);
    t.increment(204);
    assert_eq!(
        json_text(produce_output(OutputFormat::Json, &t)),
        "{\n  \"0\": 1,\n  \"204\": 2\n}"
    );
}

#[test]
fn map_equal_tallies_render_identically() {
    let mut one = Tally::new();
    one.increment(204);
    one.increment(204);
    one.increment(0);
    let mut other = Tally::new();
    other.increment(0);
    other.increment(204);
    other.increment(204);
    let first = json_text(JSONProducer.produce(&one));
    let second = json_text(JSONProducer.produce(&other));
    assert_eq!(first.as_bytes(), second.as_bytes());
}

#[test]
fn json_rendering_twice_is_byte_identical() {
    let mut t = Tally::new();
    t.increment(200);
    t.increment(0);
    t.increment(404);
    let first = json_text(JSONProducer.produce(&t));
    let second = json_text(JSONProducer.produce(&t));
    assert_eq!(first.as_bytes(), second.as_bytes());
}

#[test]
fn json_rendering_parses_back_to_the_counts() {
    let mut t = Tally::new();
    t.increment(204);
    let rendered = json_text(produce_output(OutputFormat::Json, &t));
    let value: serde_json::Value = serde_json::from_str(&rendered).unwrap();
    assert_eq!(value.get("204").unwrap(), 1);
}

#[test]
fn table_rows_have_header_and_one_row_per_code() {
    let mut t = Tally::new();
    t.increment(200);
    t.increment(200);
    t.increment(0);
    let rows = table_rows(produce_output(OutputFormat::Table, &t));
    assert_eq!(
        rows,
        vec![
            ("Status Code".to_owned(), "Count".to_owned()),
            ("200".to_owned(), "2".to_owned()),
            ("0".to_owned(), "1".to_owned()),
        ]
    );
}

#[test]
fn table_of_empty_tally_is_header_only() {
    let t = Tally::new();
    let rows = table_rows(produce_output(OutputFormat::Table, &t));
    assert_eq!(rows, vec![("Status Code".to_owned(), "Count".to_owned())]);
}

#[test]
fn multi_digit_counts_render_in_decimal() {
    let mut t = Tally::new();
    for _ in 0..12 {
        t.increment(503);
    }
    assert_eq!(
        json_text(produce_output(OutputFormat::Json, &t)),
        "{\n  \"503\": 12\n}"
    );
}

#[test]
fn producers_name_their_formats() {
    assert_eq!(JSONProducer.format_name(), "Json");
    assert_eq!(TableProducer.format_name(), "Table");
}
