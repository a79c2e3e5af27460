use roster_messenger::SCRAPE_DELAY_MS;

#[test]
fn it_works() {
    let result = 2 + 2;
    assert_eq!(result, 4);
}

#[test]
fn scrape_delay_is_300ms() {
    assert_eq!(SCRAPE_DELAY_MS, 300);
}
