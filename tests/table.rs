use ohmystock::table::{load, load_from_cells, StockInfo, StockTable};

fn record(name: &str, code: &str, homepage: &str) -> String {
    format!(
        "<tr><td>{}</td><td>{}</td><td>Software</td><td>Portal</td><td>2002-10-29</td>\
         <td>12</td><td>Choi</td><td>{}</td><td>Gyeonggi</td></tr>",
        name, code, homepage
    )
}

fn markup(rows: &[String]) -> String {
    format!("<html><body><table>{}</table></body></html>", rows.concat())
}

fn key(s: &str) -> String {
    s.to_string()
}

#[test]
fn load_gives_one_entry_per_complete_record() {
    let m = markup(&[
        record("Kakao", "035720", "http://www.kakaocorp.com"),
        record("NAVER", "035420", "http://www.navercorp.com"),
        record("LG", "003550", "http://www.lgcorp.com"),
    ]);
    let table = load(&m);
    assert_eq!(table.len(), 3);
    let kakao = table.get(&key("Kakao")).unwrap();
    assert_eq!(kakao.name, "KAKAO");
    assert_eq!(kakao.code, "035720");
    assert_eq!(kakao.bussiness_type, "Software");
    assert_eq!(kakao.product, "Portal");
    assert_eq!(kakao.listed_date, "2002-10-29");
    assert_eq!(kakao.settlement_date, "12");
    assert_eq!(kakao.representative_name, "Choi");
    assert_eq!(kakao.homepage, "http://www.kakaocorp.com");
    assert_eq!(kakao.location, "Gyeonggi");
    assert_eq!(table.get(&key("LG")).unwrap().code, "003550");
}

#[test]
fn load_keys_by_raw_first_cell() {
    let m = markup(&[record("Kakao", "035720", "x")]);
    let table = load(&m);
    assert!(table.get(&key("KAKAO")).is_none());
    assert_eq!(table.get(&key("Kakao")).unwrap().name, "KAKAO");
}

#[test]
fn load_is_repeatable() {
    let m = markup(&[
        record("Kakao", "035720", "a"),
        record("NAVER", "035420", "b"),
    ]);
    let first = load(&m);
    let second = load(&m);
    assert_eq!(first.len(), second.len());
    for k in ["Kakao", "NAVER"] {
        let a = first.get(&key(k)).unwrap();
        let b = second.get(&key(k)).unwrap();
        assert_eq!(a.name, b.name);
        assert_eq!(a.code, b.code);
        assert_eq!(a.homepage, b.homepage);
        assert_eq!(a.location, b.location);
    }
}

#[test]
fn load_duplicate_key_keeps_later_record() {
    let m = markup(&[
        record("Kakao", "111111", "http://old.example"),
        record("NAVER", "035420", "b"),
        record("Kakao", "222222", "http://new.example"),
    ]);
    let table = load(&m);
    assert_eq!(table.len(), 2);
    let kakao = table.get(&key("Kakao")).unwrap();
    assert_eq!(kakao.code, "222222");
    assert_eq!(kakao.homepage, "http://new.example");
}

#[test]
fn load_trims_homepage_only() {
    let m = "<table><tr><td> Kakao </td><td> 035720 </td><td>a</td><td>b</td><td>c</td>\
             <td>d</td><td>e</td><td>  http://www.kakaocorp.com \n</td><td>f</td></tr></table>";
    let table = load(m);
    let kakao = table.get(&key(" Kakao ")).unwrap();
    assert_eq!(kakao.name, " KAKAO ");
    assert_eq!(kakao.code, " 035720 ");
    assert_eq!(kakao.homepage, "http://www.kakaocorp.com");
}

#[test]
fn load_keeps_trailing_partial_record() {
    let m = format!(
        "<table>{}<tr><td>Samsung</td><td>005930</td></tr></table>",
        record("Kakao", "035720", "a")
    );
    let table = load(&m);
    assert_eq!(table.len(), 2);
    let partial = table.get(&key("Samsung")).unwrap();
    assert_eq!(partial.name, "SAMSUNG");
    assert_eq!(partial.code, "005930");
    assert_eq!(partial.bussiness_type, "");
    assert_eq!(partial.homepage, "");
    assert_eq!(partial.location, "");
}

#[test]
fn load_without_cells_is_empty() {
    assert_eq!(load("").len(), 0);
    assert_eq!(load("<p>no table here</p>").len(), 0);
}

#[test]
fn load_from_cells_reads_nine_to_a_record() {
    let cells: Vec<String> = [
        "a", "1", "t", "p", "d", "s", "r", " h ", "l", "b", "2",
    ]
    .iter()
    .map(|s| s.to_string())
    .collect();
    let table = load_from_cells(&cells);
    assert_eq!(table.len(), 2);
    let a = table.get(&key("a")).unwrap();
    assert_eq!(a.name, "A");
    assert_eq!(a.homepage, "h");
    assert_eq!(a.location, "l");
    let b = table.get(&key("b")).unwrap();
    assert_eq!(b.code, "2");
    assert_eq!(b.product, "");
}

#[test]
fn table_insert_replaces() {
    let mut table = StockTable::new();
    assert_eq!(table.len(), 0);
    let mut info = StockInfo::default();
    info.name = "X".to_string();
    info.code = "9".to_string();
    table.insert(key("x"), info);
    assert_eq!(table.len(), 1);
    assert_eq!(table.get(&key("x")).unwrap().code, "9");
}

#[test]
fn stock_info_default_is_empty() {
    let info = StockInfo::default();
    assert_eq!(info.name, "");
    assert_eq!(info.code, "");
    assert_eq!(info.homepage, "");
    assert_eq!(info.location, "");
}
