use nucleo_picker::match_list::{MatchList, MatchListConfig};

enum Action<'a> {
    Incr(u32),
    Decr(u32),
    Reset,
    Update(&'a [&'static str]),
    Resize(u16),
}

struct MatchListTester {
    match_list: MatchList,
    items: Vec<usize>,
}

impl MatchListTester {
    fn init_inner(size: u16, max_padding: u16, reversed: bool) -> Self {
        let mut mc = MatchListConfig::new();
        mc.scroll_padding = max_padding;
        mc.reversed = reversed;
        let mut match_list = MatchList::new(mc);
        match_list.resize(size, &[]);
        Self { match_list, items: Vec::new() }
    }

    fn init(size: u16, max_padding: u16) -> Self {
        Self::init_inner(size, max_padding, false)
    }

    fn init_rev(size: u16, max_padding: u16) -> Self {
        Self::init_inner(size, max_padding, true)
    }

    fn check(&mut self, action: Action, below: &[usize], above: &[usize]) {
        match action {
            Action::Incr(incr) => {
                self.match_list.selection_incr(incr, &self.items);
            }
            Action::Decr(decr) => {
                self.match_list.selection_decr(decr, &self.items);
            }
            Action::Reset => {
                self.match_list.reset(&self.items);
            }
            Action::Update(items) => {
                self.items = items.iter().map(|s| s.split('\n').count()).collect();
                self.match_list.update_items(&self.items);
            }
            Action::Resize(sz) => {
                self.match_list.resize(sz, &self.items);
            }
        }
        assert_eq!((self.match_list.below(), self.match_list.above()), (below, above));
    }
}

#[test]
fn tests_basic() {
    let mut lt = MatchListTester::init(6, 2);
    lt.check(Action::Update(&["12\n34", "ab"]), &[2], &[1]);
    lt.check(Action::Incr(1), &[1, 2], &[]);
    lt.check(Action::Reset, &[2], &[1]);
    lt.check(Action::Incr(1), &[1, 2], &[]);
    lt.check(Action::Incr(1), &[1, 2], &[]);

    let mut lt = MatchListTester::init_rev(6, 2);
    lt.check(Action::Update(&["12\n34", "ab"]), &[2, 1], &[]);
    lt.check(Action::Incr(1), &[1], &[2]);
    lt.check(Action::Reset, &[2, 1], &[]);
    lt.check(Action::Incr(1), &[1], &[2]);
    lt.check(Action::Incr(1), &[1], &[2]);
}

#[test]
fn size_and_item_edge_cases() {
    let mut lt = MatchListTester::init(6, 2);
    lt.check(Action::Incr(1), &[], &[]);
    lt.check(Action::Decr(1), &[], &[]);
    lt.check(Action::Update(&[]), &[], &[]);
    lt.check(Action::Resize(0), &[], &[]);
    lt.check(Action::Resize(1), &[], &[]);
    lt.check(Action::Update(&["a"]), &[1], &[]);
    lt.check(Action::Resize(0), &[], &[]);

    let mut lt = MatchListTester::init_rev(6, 2);
    lt.check(Action::Incr(1), &[], &[]);
    lt.check(Action::Decr(1), &[], &[]);
    lt.check(Action::Update(&[]), &[], &[]);
    lt.check(Action::Resize(0), &[], &[]);
    lt.check(Action::Resize(1), &[], &[]);
    lt.check(Action::Update(&["a"]), &[1], &[]);
    lt.check(Action::Resize(0), &[], &[]);
}

#[test]
fn tests_small() {
    let mut lt = MatchListTester::init(5, 1);
    lt.check(Action::Update(&["12", "a\nb"]), &[1], &[2]);
    lt.check(Action::Incr(1), &[2, 1], &[]);
    lt.check(Action::Decr(1), &[1], &[2]);

    let mut lt = MatchListTester::init_rev(5, 1);
    lt.check(Action::Update(&["12", "a\nb"]), &[1, 2], &[]);
    lt.check(Action::Incr(1), &[2], &[1]);
    lt.check(Action::Decr(1), &[1, 2], &[]);
}

#[test]
fn tests_item_change() {
    let mut lt = MatchListTester::init(4, 1);
    lt.check(Action::Update(&["0\n1\n2\n3\n4\n5", "0\n1", "0\n1", "0\n1\n2\n3"]), &[3], &[1]);
    lt.check(Action::Incr(1), &[2, 1], &[1]);
    lt.check(Action::Update(&["0\n0", "1"]), &[1, 2], &[]);
    lt.check(Action::Update(&["0\n0", "1\n1"]), &[2, 1], &[]);
    lt.check(Action::Update(&["0"]), &[1], &[]);
    lt.check(Action::Update(&["0\n0\n0\n0", "1", "2", "3"]), &[3], &[1]);
    lt.check(Action::Incr(1), &[1, 2], &[1]);
    lt.check(Action::Update(&["0", "1", "2", "3"]), &[1, 1], &[1, 1]);
    lt.check(Action::Update(&[]), &[], &[]);

    let mut lt = MatchListTester::init_rev(4, 1);
    lt.check(Action::Update(&["0\n1\n2\n3\n4\n5", "0\n1", "0\n1", "0\n1\n2\n3"]), &[4], &[]);
    lt.check(Action::Incr(1), &[2], &[2]);
    lt.check(Action::Update(&["0\n0", "1"]), &[1], &[2]);
    lt.check(Action::Update(&["0\n0", "1\n1"]), &[2], &[2]);
    lt.check(Action::Update(&["0"]), &[1], &[]);
    lt.check(Action::Update(&["0\n0\n0\n0", "1", "2", "3"]), &[4], &[]);
    lt.check(Action::Incr(1), &[1, 1], &[2]);
    lt.check(Action::Update(&["0", "1", "2", "3"]), &[1, 1, 1], &[1]);
    lt.check(Action::Update(&[]), &[], &[]);
}

#[test]
fn rev_incl_selection() {
    let mut lt = MatchListTester::init_rev(5, 1);
    lt.check(Action::Update(&["0", "1", "2", "3", "4", "5\n5\n5"]), &[1, 1, 1, 1, 1], &[]);
    lt.check(Action::Incr(4), &[1, 1], &[1, 1, 1]);
    lt.check(Action::Incr(1), &[3], &[1, 1]);
}

#[test]
fn tests_resize_basic() {
    let mut lt = MatchListTester::init(5, 1);
    lt.check(Action::Update(&["0", "1", "2", "3", "4", "5"]), &[1], &[1, 1, 1, 1]);
    lt.check(Action::Incr(5), &[1, 1, 1, 1], &[]);
    lt.check(Action::Resize(3), &[1, 1], &[]);
    lt.check(Action::Resize(5), &[1, 1, 1, 1], &[]);

    let mut lt = MatchListTester::init_rev(5, 1);
    lt.check(Action::Update(&["0", "1", "2", "3", "4", "5"]), &[1, 1, 1, 1, 1], &[]);
    lt.check(Action::Incr(5), &[1], &[1, 1, 1]);
    lt.check(Action::Resize(3), &[1], &[1]);
}

#[test]
fn tests_resize_with_padding_change() {
    let mut lt = MatchListTester::init(10, 2);
    lt.check(Action::Update(&["0\n0\n0", "1", "2\n2", "3\n3\n3\n3"]), &[3], &[1, 2, 4]);
    lt.check(Action::Resize(4), &[3], &[1]);
    lt.check(Action::Incr(2), &[2, 1], &[1]);
    lt.check(Action::Resize(8), &[2, 1, 3], &[2]);
    lt.check(Action::Resize(4), &[2, 1], &[1]);

    let mut lt = MatchListTester::init_rev(10, 2);
    lt.check(Action::Update(&["0\n0\n0", "1", "2\n2", "3\n3\n3\n3"]), &[3, 1, 2, 4], &[]);
    lt.check(Action::Resize(4), &[3, 1], &[]);
    lt.check(Action::Incr(2), &[2], &[1, 1]);
    lt.check(Action::Resize(8), &[2, 2], &[1, 3]);
    lt.check(Action::Resize(4), &[2], &[1, 1]);
}

#[test]
fn tests_item_alignment() {
    let mut lt = MatchListTester::init(20, 3);
    lt.check(Action::Update(&["0\n1\n2\n", "0\n1", "0\n1"]), &[4], &[2, 2]);
    lt.check(Action::Incr(2), &[2, 2, 4], &[]);
    lt.check(Action::Decr(1), &[2, 4], &[2]);

    let mut lt = MatchListTester::init_rev(20, 3);
    lt.check(Action::Update(&["0\n1\n2\n", "0\n1", "0\n1"]), &[4, 2, 2], &[]);
    lt.check(Action::Incr(2), &[2], &[2, 4]);
    lt.check(Action::Decr(1), &[2, 2], &[4]);
}

#[test]
fn tests_scrolldown() {
    let mut lt = MatchListTester::init(8, 2);
    lt.check(Action::Update(&["0", "1", "2", "3", "4", "5", "6", "7", "8", "9", "10"]), &[1], &[1, 1, 1, 1, 1, 1, 1]);
    lt.check(Action::Incr(100), &[1, 1, 1, 1, 1, 1], &[]);
    lt.check(Action::Decr(1), &[1, 1, 1, 1, 1], &[1]);
    lt.check(Action::Decr(1), &[1, 1, 1, 1], &[1, 1]);
    lt.check(Action::Decr(1), &[1, 1, 1], &[1, 1, 1]);
    lt.check(Action::Decr(1), &[1, 1, 1], &[1, 1, 1, 1]);
    lt.check(Action::Decr(1), &[1, 1, 1], &[1, 1, 1, 1, 1]);
    lt.check(Action::Decr(3), &[1, 1, 1], &[1, 1, 1, 1, 1]);
    lt.check(Action::Decr(1), &[1, 1], &[1, 1, 1, 1, 1, 1]);
    lt.check(Action::Decr(1), &[1], &[1, 1, 1, 1, 1, 1, 1]);
    lt.check(Action::Decr(1), &[1], &[1, 1, 1, 1, 1, 1, 1]);

    let mut lt = MatchListTester::init_rev(8, 2);
    lt.check(Action::Update(&["0", "1", "2", "3", "4", "5", "6", "7", "8", "9", "10"]), &[1, 1, 1, 1, 1, 1, 1, 1], &[]);
    lt.check(Action::Incr(100), &[1], &[1, 1, 1, 1, 1]);
    lt.check(Action::Decr(1), &[1, 1], &[1, 1, 1, 1]);
    lt.check(Action::Decr(1), &[1, 1, 1], &[1, 1, 1]);
    lt.check(Action::Decr(1), &[1, 1, 1, 1], &[1, 1]);
    lt.check(Action::Decr(1), &[1, 1, 1, 1, 1], &[1, 1]);
    lt.check(Action::Decr(1), &[1, 1, 1, 1, 1, 1], &[1, 1]);
    lt.check(Action::Decr(3), &[1, 1, 1, 1, 1, 1], &[1, 1]);
    lt.check(Action::Decr(1), &[1, 1, 1, 1, 1, 1, 1], &[1]);
    lt.check(Action::Decr(1), &[1, 1, 1, 1, 1, 1, 1, 1], &[]);
}

#[test]
fn tests_scrollback() {
    let mut lt = MatchListTester::init(5, 1);
    lt.check(Action::Update(&["12\n34", "ab", "c", "d", "e", "f\ng"]), &[2], &[1, 1, 1]);
    lt.check(Action::Incr(3), &[1, 1, 1, 1], &[1]);
    lt.check(Action::Incr(1), &[1, 1, 1, 1], &[1]);
    lt.check(Action::Incr(1), &[2, 1, 1], &[]);
    lt.check(Action::Decr(1), &[1, 1], &[2]);
    lt.check(Action::Incr(1), &[2, 1, 1], &[]);
    lt.check(Action::Decr(2), &[1, 1], &[1, 2]);
    lt.check(Action::Decr(1), &[1, 1], &[1, 1, 1]);
    lt.check(Action::Decr(1), &[1, 1], &[1, 1, 1]);
    lt.check(Action::Decr(1), &[2], &[1, 1, 1]);

    let mut lt = MatchListTester::init_rev(5, 1);
    lt.check(Action::Update(&["12\n34", "ab", "c", "d", "e", "f\ng"]), &[2, 1, 1, 1], &[]);
    lt.check(Action::Incr(3), &[1, 1], &[1, 1, 1]);
    lt.check(Action::Incr(1), &[1, 1], &[1, 1, 1]);
    lt.check(Action::Incr(1), &[2], &[1, 1, 1]);
    lt.check(Action::Decr(1), &[1, 2], &[1, 1]);
    lt.check(Action::Incr(1), &[2], &[1, 1, 1]);
    lt.check(Action::Decr(2), &[1, 1, 2], &[1]);
    lt.check(Action::Decr(1), &[1, 1, 1, 1], &[1]);
    lt.check(Action::Decr(1), &[1, 1, 1, 1], &[1]);
    lt.check(Action::Decr(1), &[2, 1, 1, 1], &[]);
}

#[test]
fn tests_multiline_jitter() {
    let mut lt = MatchListTester::init(12, 3);
    lt.check(Action::Update(&["a", "b", "0\n1\n2\n3", "0\n1", "0\n1"]), &[1], &[1, 4, 2, 2]);
    lt.check(Action::Incr(1), &[1, 1], &[4, 2, 2]);
    lt.check(Action::Incr(1), &[4, 1, 1], &[2, 2]);
    lt.check(Action::Incr(1), &[2, 4, 1, 1], &[2]);
    lt.check(Action::Incr(1), &[2, 2, 4, 1], &[]);
    lt.check(Action::Decr(1), &[2, 4, 1], &[2]);
    lt.check(Action::Decr(1), &[4, 1], &[2, 2]);
    lt.check(Action::Incr(1), &[2, 4, 1], &[2]);

    let mut lt = MatchListTester::init_rev(10, 3);
    lt.check(Action::Update(&["a", "b", "0\n1\n2\n3", "0\n1", "0\n1"]), &[1, 1, 4, 2, 2], &[]);
    lt.check(Action::Incr(1), &[1, 4, 2, 2], &[1]);
    lt.check(Action::Incr(1), &[4, 2, 2], &[1, 1]);
    lt.check(Action::Incr(1), &[2, 2], &[4, 1, 1]);
    lt.check(Action::Incr(1), &[2], &[2, 4]);
    lt.check(Action::Decr(1), &[2, 2], &[4]);
    lt.check(Action::Decr(1), &[4, 2, 2], &[1, 1]);
    lt.check(Action::Incr(1), &[2, 2], &[4, 1, 1]);
}

#[test]
fn tests_scroll_mid() {
    let mut lt = MatchListTester::init(5, 1);
    lt.check(Action::Update(&["0", "1", "2", "3", "4", "5", "6", "7"]), &[1], &[1, 1, 1, 1]);

    lt.check(Action::Incr(4), &[1, 1, 1, 1], &[1]);
    lt.check(Action::Decr(2), &[1, 1], &[1, 1, 1]);
    lt.check(Action::Incr(1), &[1, 1, 1], &[1, 1]);
    lt.check(Action::Decr(1), &[1, 1], &[1, 1, 1]);
    lt.check(Action::Resize(7), &[1, 1, 1], &[1, 1, 1, 1]);
    lt.check(Action::Decr(1), &[1, 1], &[1, 1, 1, 1, 1]);
    lt.check(Action::Incr(2), &[1, 1, 1, 1], &[1, 1, 1]);
    lt.check(Action::Decr(1), &[1, 1, 1], &[1, 1, 1, 1]);
    lt.check(Action::Incr(1), &[1, 1, 1, 1], &[1, 1, 1]);
    lt.check(Action::Decr(2), &[1, 1], &[1, 1, 1, 1, 1]);
    lt.check(Action::Incr(20), &[1, 1, 1, 1, 1, 1], &[]);

    let mut lt = MatchListTester::init_rev(5, 1);
    lt.check(Action::Update(&["0", "1", "2", "3", "4", "5", "6", "7"]), &[1, 1, 1, 1, 1], &[]);
    lt.check(Action::Incr(4), &[1, 1], &[1, 1, 1]);
    lt.check(Action::Decr(2), &[1, 1, 1, 1], &[1]);
    lt.check(Action::Incr(1), &[1, 1, 1], &[1, 1]);
    lt.check(Action::Decr(1), &[1, 1, 1, 1], &[1]);
    lt.check(Action::Resize(7), &[1, 1, 1, 1, 1], &[1, 1]);
    lt.check(Action::Decr(1), &[1, 1, 1, 1, 1, 1], &[1]);
}
