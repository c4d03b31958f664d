use ohmystock::locator::{locator_at, make_reference_url, push_time_text, Timestamp};
use ohmystock::lookup::{find, finish_lookup, lookup};
use ohmystock::quote::Direction;
use ohmystock::table::load;

fn at(year: i32, month: u32, day: u32, hour: u32, minute: u32, second: u32) -> Timestamp {
    Timestamp { year, month, day, hour, minute, second }
}

fn table_markup() -> String {
    "<table><tr><td>NAVER</td><td>035420</td><td>a</td><td>b</td><td>c</td><td>d</td>\
     <td>e</td><td>f</td><td>g</td></tr></table>"
        .to_string()
}

#[test]
fn locator_time_parameter() {
    let url = locator_at("005930", &at(2023, 1, 5, 9, 3, 7));
    assert_eq!(
        url,
        "https://finance.naver.com/item/sise_time.nhn?thistime=20230105090307&code=005930"
    );
}

#[test]
fn time_text_padding() {
    let mut s = String::from(">");
    push_time_text(&mut s, &at(987, 12, 31, 23, 59, 0));
    assert_eq!(s, ">09871231235900");
    let mut s = String::new();
    push_time_text(&mut s, &at(-5, 1, 1, 0, 0, 0));
    assert_eq!(s, "-0050101000000");
    let mut s = String::new();
    push_time_text(&mut s, &at(12345, 1, 1, 0, 0, 0));
    assert_eq!(s, "123450101000000");
}

#[test]
fn lookup_unknown_target_is_no_operation() {
    let table = load(&table_markup());
    assert!(lookup(&table, "Kakao", &at(2023, 1, 5, 9, 3, 7)).is_none());
    assert!(find(&table, "Kakao").is_none());
}

#[test]
fn lookup_matches_upper_cased_target() {
    let table = load(&table_markup());
    let (info, url) = lookup(&table, "naver", &at(2023, 1, 5, 9, 3, 7)).unwrap();
    assert_eq!(info.code, "035420");
    assert_eq!(
        url,
        "https://finance.naver.com/item/sise_time.nhn?thistime=20230105090307&code=035420"
    );
    assert_eq!(find(&table, "Naver").unwrap().name, "NAVER");
}

#[test]
fn make_reference_url_uses_current_time() {
    let table = load(&table_markup());
    let info = find(&table, "NAVER").unwrap();
    let url = make_reference_url(info);
    let prefix = "https://finance.naver.com/item/sise_time.nhn?thistime=";
    assert!(url.starts_with(prefix));
    assert!(url.ends_with("&code=035420"));
    let stamp = &url[prefix.len()..url.len() - "&code=035420".len()];
    assert_eq!(stamp.len(), 14);
    assert!(stamp.chars().all(|c| c.is_ascii_digit()));
}

#[test]
fn finish_lookup_passes_failure_on() {
    let r = finish_lookup(Err("connection refused".to_string()));
    match r {
        Err(e) => assert_eq!(e.cause, "connection refused"),
        Ok(_) => panic!("expected an error"),
    }
}

#[test]
fn finish_lookup_reads_page() {
    let body = "<p class=\"num\"><span>300</span></p><p class=\"num\"><img src=\"ico_down.gif\"><span>5</span></p>";
    match finish_lookup(Ok(body.to_string())) {
        Ok(q) => {
            assert_eq!(q.price, "300");
            assert_eq!(q.delta, "5");
            assert_eq!(q.direction, Direction::Down);
        }
        Err(_) => panic!("expected a quote"),
    }
}
