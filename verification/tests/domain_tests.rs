use counit::domain::DomainTranspiler;

/// A dictionary in the CSV layout the loader reads: a header line and 29
/// rows, one of them the domestic-currency term.
fn domain_fixture() -> String {
    let mut text = String::from("native,english,abbreviation,description\n");
    text.push_str("本币,Domestic Currency,DCY,domestic currency account\n");
    for i in 0..28 {
        text.push_str(&format!("term{:02},Term {:02},T{:02},meaning {:02}\n", i, i, i, i));
    }
    text
}

#[test]
fn domain_transpiler_load_csv() {
    let mut loader = DomainTranspiler::new();
    loader.load_csv_text(&domain_fixture());
    assert_eq!(loader.domain_records.len(), 29);
}

#[test]
fn domain_transpiler_transpile() {
    let mut loader = DomainTranspiler::new();
    loader.load_csv_text(&domain_fixture());
    assert_eq!(loader.domain_records.len(), 29);

    assert_eq!(loader.transpile("本币"), "本币(Domestic Currency)");
    assert_eq!(loader.transpile("DCY"), "DCY(Domestic Currency)");
}

#[test]
fn domain_loader_load_csv() {
    let mut loader = DomainTranspiler::new();
    loader.load_csv_text(&domain_fixture());
    assert_eq!(loader.domain_records.len(), 29);
}

#[test]
fn domain_loader_transpile() {
    let mut loader = DomainTranspiler::new();
    loader.load_csv_text(&domain_fixture());
    assert_eq!(loader.domain_records.len(), 29);

    assert_eq!(loader.transpile("本币"), "本币(Domestic Currency)");
    assert_eq!(loader.transpile("DCY"), "DCY(Domestic Currency)");
}

#[test]
fn domain_json_rows_load() {
    let mut loader = DomainTranspiler::empty();
    loader.load_json_text(
        "[{\"native\": \"外汇\", \"english\": \"Foreign Exchange\", \"abbreviation\": \"FX\", \"description\": \"\"}]",
    );
    assert_eq!(loader.domain_records.len(), 1);
    assert_eq!(loader.transpile("FX rate"), "FX(Foreign Exchange) rate");
}

#[test]
fn transpile_with_empty_dictionary_keeps_text() {
    let loader = DomainTranspiler::empty();
    assert_eq!(loader.transpile("何もない"), "何もない");
}

#[test]
fn malformed_csv_rows_yield_no_records() {
    let mut loader = DomainTranspiler::new();
    loader.load_csv_text("native,english,abbreviation,description\nonly,three,fields\n\n");
    assert_eq!(loader.domain_records.len(), 0);
}
