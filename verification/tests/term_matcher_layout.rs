use nucleo_picker::term::matcher::{LayoutView, Matcher};

enum LayoutChange<'a> {
    Incr(u32),
    Decr(u32),
    Reset,
    Update(&'a [&'static str]),
    Resize(u16, u16, u16),
}

struct LayoutTester {
    layout: Matcher,
    items: Vec<usize>,
}

impl LayoutTester {
    fn init(size: u16, padding_bottom: u16, padding_top: u16) -> Self {
        Self { layout: Matcher::new(size, padding_bottom, padding_top), items: Vec::new() }
    }

    fn check(&mut self, lc: LayoutChange, below: &[usize], above: &[usize]) {
        match lc {
            LayoutChange::Incr(incr) => {
                self.layout.selection_incr(incr, &self.items);
            }
            LayoutChange::Decr(decr) => {
                self.layout.selection_decr(decr, &self.items);
            }
            LayoutChange::Reset => {
                self.layout.reset(&self.items);
            }
            LayoutChange::Update(items) => {
                self.items = items.iter().map(|s| s.split('\n').count()).collect();
                self.layout.update_items(&self.items);
            }
            LayoutChange::Resize(sz, bot, top) => {
                self.layout.resize(sz, bot, top, &self.items);
            }
        }
        assert_eq!(self.layout.view(), LayoutView { below, above });
    }
}

#[test]
fn matcher_basic() {
    let mut lt = LayoutTester::init(6, 2, 3);
    lt.check(LayoutChange::Update(&["12\n34", "ab"]), &[2], &[1]);
    lt.check(LayoutChange::Incr(1), &[1, 2], &[]);
    lt.check(LayoutChange::Reset, &[2], &[1]);
    lt.check(LayoutChange::Incr(1), &[1, 2], &[]);
}

#[test]
fn matcher_small() {
    let mut lt = LayoutTester::init(5, 1, 1);
    lt.check(LayoutChange::Update(&["12", "a\nb"]), &[1], &[2]);
    lt.check(LayoutChange::Incr(1), &[2, 1], &[]);
    lt.check(LayoutChange::Decr(1), &[1], &[2]);
}

#[test]
fn large() {
    let mut lt = LayoutTester::init(3, 0, 0);
    lt.check(LayoutChange::Update(&["1\n2\n3\n4\n5", "1"]), &[3], &[]);
    lt.check(LayoutChange::Resize(3, 1, 0), &[3], &[]);
    lt.check(LayoutChange::Resize(3, 1, 1), &[2], &[1]);
}

#[test]
fn matcher_item_change() {
    let mut lt = LayoutTester::init(4, 1, 1);
    lt.check(LayoutChange::Update(&["0\n1\n2\n3\n4\n5", "0\n1", "0\n1", "0\n1\n2\n3"]), &[3], &[1]);
    lt.check(LayoutChange::Incr(1), &[2, 1], &[1]);
    lt.check(LayoutChange::Update(&["0\n0", "1"]), &[1, 2], &[]);
    lt.check(LayoutChange::Update(&["0\n0", "1\n1"]), &[2, 1], &[]);
    lt.check(LayoutChange::Update(&["0"]), &[1], &[]);
    lt.check(LayoutChange::Update(&["0\n0\n0\n0", "1", "2", "3"]), &[3], &[1]);
    lt.check(LayoutChange::Incr(1), &[1, 2], &[1]);
    lt.check(LayoutChange::Update(&["0", "1", "2", "3"]), &[1, 1], &[1, 1]);
    lt.check(LayoutChange::Update(&[]), &[], &[]);
}

#[test]
fn overflow() {
    let mut lt = LayoutTester::init(6, 2, 3);
    lt.check(LayoutChange::Update(&["12\n34", "ab", "1\n2\n3\n4"]), &[2], &[1, 3]);
    lt.check(LayoutChange::Incr(1), &[1, 2], &[3]);
    lt.check(LayoutChange::Incr(1), &[3], &[]);
    lt.check(LayoutChange::Resize(5, 2, 2), &[3], &[]);
    lt.check(LayoutChange::Resize(7, 2, 3), &[4], &[]);
    lt.check(LayoutChange::Decr(2), &[2], &[1, 4]);
    lt.check(LayoutChange::Resize(6, 2, 0), &[2], &[1, 3]);
    lt.check(LayoutChange::Incr(2), &[4, 1, 1], &[]);
    lt.check(LayoutChange::Resize(8, 2, 0), &[4, 1, 2], &[]);
    lt.check(LayoutChange::Resize(7, 2, 0), &[4, 1, 2], &[]);
    lt.check(LayoutChange::Resize(6, 2, 0), &[4, 1, 1], &[]);
}

#[test]
fn matcher_resize_basic() {
    let mut lt = LayoutTester::init(5, 1, 1);
    lt.check(LayoutChange::Update(&["0", "1", "2", "3", "4", "5"]), &[1], &[1, 1, 1, 1]);
    lt.check(LayoutChange::Incr(5), &[1, 1, 1, 1], &[]);
    lt.check(LayoutChange::Resize(3, 1, 1), &[1, 1], &[]);
    lt.check(LayoutChange::Resize(5, 1, 1), &[1, 1, 1, 1], &[]);
}

#[test]
fn matcher_resize_with_padding_change() {
    let mut lt = LayoutTester::init(10, 3, 3);
    lt.check(LayoutChange::Update(&["0\n0\n0", "1", "2\n2", "3\n3\n3\n3"]), &[3], &[1, 2, 4]);
    lt.check(LayoutChange::Resize(5, 1, 1), &[3], &[1, 1]);
    lt.check(LayoutChange::Incr(2), &[2, 1, 1], &[1]);
    lt.check(LayoutChange::Resize(8, 2, 2), &[2, 1, 3], &[2]);
    lt.check(LayoutChange::Resize(5, 1, 1), &[2, 1, 1], &[1]);
}

#[test]
fn matcher_item_alignment() {
    let mut lt = LayoutTester::init(20, 3, 3);
    lt.check(LayoutChange::Update(&["0\n1\n2\n", "0\n1", "0\n1"]), &[4], &[2, 2]);
    lt.check(LayoutChange::Incr(2), &[2, 2, 4], &[]);
    lt.check(LayoutChange::Decr(1), &[2, 4], &[2]);
}

#[test]
fn matcher_scrolldown() {
    let mut lt = LayoutTester::init(8, 2, 2);
    lt.check(LayoutChange::Update(&["0", "1", "2", "3", "4", "5", "6", "7", "8", "9", "10"]), &[1], &[1, 1, 1, 1, 1, 1, 1]);

    lt.check(LayoutChange::Incr(100), &[1, 1, 1, 1, 1, 1], &[]);
    lt.check(LayoutChange::Decr(1), &[1, 1, 1, 1, 1], &[1]);
    lt.check(LayoutChange::Decr(1), &[1, 1, 1, 1], &[1, 1]);
    lt.check(LayoutChange::Decr(1), &[1, 1, 1], &[1, 1, 1]);
    lt.check(LayoutChange::Decr(1), &[1, 1, 1], &[1, 1, 1, 1]);
    lt.check(LayoutChange::Decr(1), &[1, 1, 1], &[1, 1, 1, 1, 1]);
    lt.check(LayoutChange::Decr(3), &[1, 1, 1], &[1, 1, 1, 1, 1]);
    lt.check(LayoutChange::Decr(1), &[1, 1], &[1, 1, 1, 1, 1, 1]);
    lt.check(LayoutChange::Decr(1), &[1], &[1, 1, 1, 1, 1, 1, 1]);
    lt.check(LayoutChange::Decr(1), &[1], &[1, 1, 1, 1, 1, 1, 1]);
}

#[test]
fn matcher_scrollback() {
    let mut lt = LayoutTester::init(5, 1, 1);
    lt.check(LayoutChange::Update(&["12\n34", "ab", "c", "d", "e", "f\ng"]), &[2], &[1, 1, 1]);

    lt.check(LayoutChange::Incr(3), &[1, 1, 1, 1], &[1]);
    lt.check(LayoutChange::Incr(1), &[1, 1, 1, 1], &[1]);
    lt.check(LayoutChange::Incr(1), &[2, 1, 1], &[]);
    lt.check(LayoutChange::Decr(1), &[1, 1], &[2]);
    lt.check(LayoutChange::Incr(1), &[2, 1, 1], &[]);
    lt.check(LayoutChange::Decr(2), &[1, 1], &[1, 2]);
    lt.check(LayoutChange::Decr(1), &[1, 1], &[1, 1, 1]);
    lt.check(LayoutChange::Decr(1), &[1, 1], &[1, 1, 1]);
    lt.check(LayoutChange::Decr(1), &[2], &[1, 1, 1]);
}

#[test]
fn matcher_multiline_jitter() {
    let mut lt = LayoutTester::init(12, 3, 3);
    lt.check(LayoutChange::Update(&["a", "b", "0\n1\n2\n3", "0\n1", "0\n1"]), &[1], &[1, 4, 2, 2]);
    lt.check(LayoutChange::Incr(1), &[1, 1], &[4, 2, 2]);
    lt.check(LayoutChange::Incr(1), &[4, 1, 1], &[2, 2]);
    lt.check(LayoutChange::Incr(1), &[2, 4, 1, 1], &[2]);
    lt.check(LayoutChange::Incr(1), &[2, 2, 4, 1], &[]);
    lt.check(LayoutChange::Decr(1), &[2, 4, 1], &[2]);
    lt.check(LayoutChange::Decr(1), &[4, 1], &[2, 2]);
    lt.check(LayoutChange::Incr(1), &[2, 4, 1], &[2]);
}

#[test]
fn matcher_scroll_mid() {
    let mut lt = LayoutTester::init(5, 1, 1);
    lt.check(LayoutChange::Update(&["0", "1", "2", "3", "4", "5", "6", "7"]), &[1], &[1, 1, 1, 1]);

    lt.check(LayoutChange::Incr(4), &[1, 1, 1, 1], &[1]);
    lt.check(LayoutChange::Decr(2), &[1, 1], &[1, 1, 1]);
    lt.check(LayoutChange::Incr(1), &[1, 1, 1], &[1, 1]);
    lt.check(LayoutChange::Decr(1), &[1, 1], &[1, 1, 1]);
    lt.check(LayoutChange::Resize(7, 1, 1), &[1, 1, 1], &[1, 1, 1, 1]);
    lt.check(LayoutChange::Decr(1), &[1, 1], &[1, 1, 1, 1, 1]);
    lt.check(LayoutChange::Incr(2), &[1, 1, 1, 1], &[1, 1, 1]);
    lt.check(LayoutChange::Decr(1), &[1, 1, 1], &[1, 1, 1, 1]);
    lt.check(LayoutChange::Incr(1), &[1, 1, 1, 1], &[1, 1, 1]);
    lt.check(LayoutChange::Decr(2), &[1, 1], &[1, 1, 1, 1, 1]);
    lt.check(LayoutChange::Incr(20), &[1, 1, 1, 1, 1, 1], &[]);
}
