use buffer_manager::data_storage_manager::DSMgr;

#[test]
fn page_count_comes_from_the_file_size() {
    assert_eq!(DSMgr::new(0).get_num_pages(), 0);
    assert_eq!(DSMgr::new(4095).get_num_pages(), 0);
    assert_eq!(DSMgr::new(4096).get_num_pages(), 1);
    assert_eq!(DSMgr::new(4097).get_num_pages(), 1);
    assert_eq!(DSMgr::new(50000 * 4096).get_num_pages(), 50000);
    assert_eq!(DSMgr::new(2147483647 * 4096).get_num_pages(), 2147483647);
}

#[test]
fn open_file_is_new() {
    let mgr = DSMgr::open_file(3 * 4096 + 17);
    assert_eq!(mgr.get_num_pages(), 3);
    assert_eq!(mgr.get_write_num(), 0);
}

#[test]
fn new_page_hands_out_the_count_and_grows_it() {
    let mut mgr = DSMgr::new(2 * 4096);
    assert_eq!(mgr.new_page(true), Some(2));
    assert_eq!(mgr.get_num_pages(), 3);
    assert_eq!(mgr.new_page(true), Some(3));
    assert_eq!(mgr.new_page(true), Some(4));
    assert_eq!(mgr.get_num_pages(), 5);
    assert_eq!(mgr.get_write_num(), 0);
}

#[test]
fn page_that_was_not_added_is_not_counted() {
    let mut mgr = DSMgr::new(2 * 4096);
    assert_eq!(mgr.new_page(false), None);
    assert_eq!(mgr.get_num_pages(), 2);
    assert_eq!(mgr.new_page(false), None);
    assert_eq!(mgr.new_page(true), Some(2));
    assert_eq!(mgr.get_num_pages(), 3);
    assert_eq!(mgr.new_page(false), None);
    assert_eq!(mgr.get_num_pages(), 3);
    let mut full = DSMgr::new(2147483647 * 4096);
    assert_eq!(full.new_page(false), None);
    assert_eq!(full.get_num_pages(), 2147483647);
}

#[test]
fn pages_stand_one_after_the_other() {
    let mgr = DSMgr::new(0);
    assert_eq!(mgr.read_page(0), Some(0));
    assert_eq!(mgr.read_page(1), Some(4096));
    assert_eq!(mgr.read_page(3), Some(12288));
    assert_eq!(mgr.write_page(0), Some(0));
    assert_eq!(mgr.write_page(7), Some(28672));
    assert_eq!(mgr.write_page(2147483647), Some(8796093018112));
    assert_eq!(mgr.read_page(2147483647), Some(8796093018112));
}

#[test]
fn negative_identifier_has_no_place_in_the_file() {
    let mgr = DSMgr::new(10 * 4096);
    assert_eq!(mgr.read_page(-1), None);
    assert_eq!(mgr.write_page(-1), None);
    assert_eq!(mgr.read_page(-2147483648), None);
    assert_eq!(mgr.write_page(-7), None);
    assert_eq!(mgr.get_num_pages(), 10);
    assert_eq!(mgr.get_write_num(), 0);
}

#[test]
fn written_pages_are_counted() {
    let mut mgr = DSMgr::new(4096);
    mgr.page_written();
    mgr.page_written();
    assert_eq!(mgr.get_write_num(), 2);
    assert_eq!(mgr.get_num_pages(), 1);
}
