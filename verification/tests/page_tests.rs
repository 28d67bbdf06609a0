use buffer_manager::define::{INVALID_PAGE_ID, PAGE_SIZE};
use buffer_manager::page::Page;

#[test]
fn new_page_is_empty_and_zeroed() {
    let page = Page::new();
    assert_eq!(page.get_page_id(), -1);
    assert_eq!(page.get_page_id(), INVALID_PAGE_ID);
    assert!(!page.is_dirty());
    assert_eq!(page.get_pin_count(), 0);
    assert_eq!(page.get_data().len(), 4096);
    assert!(page.get_data().iter().all(|b| *b == 0));
}

#[test]
fn with_page_id_carries_the_id() {
    let page = Page::with_page_id(17);
    assert_eq!(page.get_page_id(), 17);
    assert!(!page.is_dirty());
    assert_eq!(page.get_pin_count(), 0);
    assert!(page.get_data().iter().all(|b| *b == 0));
}

#[test]
fn set_page_id_changes_only_the_id() {
    let mut page = Page::new();
    page.set_dirty(true);
    page.inc_pin_count();
    page.set_page_id(42);
    assert_eq!(page.get_page_id(), 42);
    assert!(page.is_dirty());
    assert_eq!(page.get_pin_count(), 1);
    assert!(page.get_data().iter().all(|b| *b == 0));
}

#[test]
fn set_data_overwrites_the_whole_buffer() {
    let mut page = Page::with_page_id(3);
    let mut first = [0u8; PAGE_SIZE];
    for (i, byte) in first.iter_mut().enumerate() {
        *byte = (i % 251) as u8;
    }
    page.set_data(&first);
    assert_eq!(page.get_data(), &first);
    let second = [9u8; PAGE_SIZE];
    page.set_data(&second);
    assert_eq!(page.get_data(), &second);
    assert_eq!(page.get_page_id(), 3);
    assert!(!page.is_dirty());
}

#[test]
fn dirty_flag_is_set_and_cleared() {
    let mut page = Page::new();
    page.set_dirty(true);
    assert!(page.is_dirty());
    page.set_dirty(true);
    assert!(page.is_dirty());
    page.set_dirty(false);
    assert!(!page.is_dirty());
}

#[test]
fn pin_count_goes_up_and_down() {
    let mut page = Page::new();
    page.inc_pin_count();
    page.inc_pin_count();
    page.inc_pin_count();
    assert_eq!(page.get_pin_count(), 3);
    page.dec_pin_count();
    assert_eq!(page.get_pin_count(), 2);
    page.dec_pin_count();
    page.dec_pin_count();
    assert_eq!(page.get_pin_count(), 0);
}

#[test]
fn pin_count_goes_below_zero() {
    let mut page = Page::new();
    page.dec_pin_count();
    assert_eq!(page.get_pin_count(), -1);
    page.inc_pin_count();
    assert_eq!(page.get_pin_count(), 0);
}
