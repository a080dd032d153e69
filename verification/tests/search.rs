use notmuch_core::cursor::Cursor;
use notmuch_core::database::Database;
use notmuch_core::directory::Directory;
use notmuch_core::error::{as_result, Error};
use notmuch_core::ledger::{Destroy, Ledger};
use notmuch_core::message::Message;
use notmuch_core::messages::Messages;
use notmuch_core::query::Query;
use notmuch_core::sort::Sort;
use notmuch_core::tags::Tags;
use notmuch_core::threads::Threads;
use notmuch_core::token::{Kind, Mode, Token};

/// A stand-in for the engine: a query whose search finds the messages at
/// these addresses, and the cursor of one list made from it.
struct Engine {
    found: Vec<usize>,
    sort: u32,
    at: usize,
}

impl Engine {
    fn new(found: Vec<usize>) -> Engine {
        Engine { found, sort: 3, at: 0 }
    }

    fn count(&self) -> (u32, u32) {
        (0, self.found.len() as u32)
    }

    fn search(&mut self) -> (u32, usize) {
        self.at = 0;
        (0, 0x3000)
    }

    fn valid(&self) -> i32 {
        if self.at < self.found.len() {
            1
        } else {
            0
        }
    }

    fn get_and_move(&mut self) -> usize {
        let m = self.found[self.at];
        self.at += 1;
        m
    }

    fn collect_tags(&mut self) -> usize {
        self.at = self.found.len();
        0x5000
    }
}

fn step(msgs: &mut Messages, ledger: &mut Ledger, engine: &mut Engine) -> Option<Message> {
    let valid = engine.valid();
    let current = if valid != 0 { engine.get_and_move() } else { 0 };
    msgs.next(ledger, valid, current)
}

fn drain(msgs: &mut Messages, ledger: &mut Ledger, engine: &mut Engine) -> Vec<Message> {
    let mut out = Vec::new();
    while let Some(m) = step(msgs, ledger, engine) {
        out.push(m);
    }
    out
}

fn setup(found: Vec<usize>) -> (Ledger, Database, Query, Engine) {
    let mut ledger = Ledger::new();
    let db = Database::open(&mut ledger, 0x1000).unwrap();
    let query = Query::create(&mut ledger, &db, Mode::Borrowed, 0x2000).unwrap();
    (ledger, db, query, Engine::new(found))
}

#[test]
fn counting_twice_and_draining_agree() {
    // The query stands for the string "tag:inbox".
    let (mut ledger, _db, query, mut engine) = setup(vec![0x100, 0x200, 0x300, 0x400]);
    engine.sort = query.set_sort(&ledger, Sort::OldestFirst);
    assert_eq!(engine.sort, 0);
    assert_eq!(query.sort(&ledger, engine.sort), Sort::OldestFirst);

    let (status, count) = engine.count();
    let first = query.count_messages(&ledger, status, count).unwrap();
    let (status, count) = engine.count();
    let second = query.count_messages(&ledger, status, count).unwrap();
    assert_eq!(first, 4);
    assert_eq!(first, second);

    let (status, ptr) = engine.search();
    let mut msgs = query.search_messages(&mut ledger, status, ptr).unwrap();
    let all = drain(&mut msgs, &mut ledger, &mut engine);
    assert_eq!(all.len() as u32, first);
    let ptrs: Vec<usize> = all.iter().map(|m| m.ptr).collect();
    assert_eq!(ptrs, vec![0x100, 0x200, 0x300, 0x400]);
}

#[test]
fn next_yields_nothing_after_it_yielded_nothing() {
    let (mut ledger, _db, query, mut engine) = setup(vec![0x100]);
    let mut msgs = query.search_messages(&mut ledger, 0, 0x3000).unwrap();
    assert!(step(&mut msgs, &mut ledger, &mut engine).is_some());
    assert!(step(&mut msgs, &mut ledger, &mut engine).is_none());
    assert!(msgs.cursor.is_exhausted());
    // Whatever the engine says from now on, nothing is yielded and nothing
    // is entered.
    let before = ledger.len();
    assert!(msgs.next(&mut ledger, 1, 0x999).is_none());
    assert!(msgs.next(&mut ledger, -1, 0x998).is_none());
    assert!(msgs.next(&mut ledger, 0, 0).is_none());
    assert_eq!(ledger.len(), before);
    assert_eq!(msgs.cursor, Cursor::Exhausted);
}

#[test]
fn collect_tags_uses_up_the_list() {
    let (mut ledger, _db, query, mut engine) = setup(vec![0x100, 0x200, 0x300]);
    let mut msgs = query.search_messages(&mut ledger, 0, 0x3000).unwrap();
    assert!(step(&mut msgs, &mut ledger, &mut engine).is_some());
    let tags = msgs.collect_tags(&mut ledger, engine.collect_tags());
    assert_eq!(tags.ptr, 0x5000);
    assert!(tags.is_bound(&ledger));
    assert_eq!(tags.cursor, Cursor::Active);
    assert!(msgs.cursor.is_exhausted());
    assert!(step(&mut msgs, &mut ledger, &mut engine).is_none());
    // Even if the engine still reported an element, none is yielded.
    assert!(msgs.next(&mut ledger, 1, 0x200).is_none());

    // The tags have the list on loan.
    let t = ledger.slot(tags.slot).unwrap().parent.unwrap();
    assert_eq!(t, Token { mode: Mode::Borrowed, owner: msgs.slot });
    assert!(!ledger.can_release(msgs.slot));
    let calls = tags.release(&mut ledger);
    assert_eq!(calls, vec![Destroy { kind: Kind::Tags, ptr: 0x5000 }]);
    assert!(ledger.can_release(msgs.slot));
}

#[test]
fn collect_tags_on_a_fresh_list_leaves_nothing_to_yield() {
    let (mut ledger, _db, query, mut engine) = setup(vec![0x100, 0x200]);
    let mut msgs = query.search_messages(&mut ledger, 0, 0x3000).unwrap();
    let _tags = msgs.collect_tags(&mut ledger, 0x5000);
    assert!(msgs.next(&mut ledger, engine.valid(), 0x100).is_none());
    assert!(msgs.is_bound(&ledger));
}

#[test]
fn a_message_holds_on_to_the_owner_of_its_list() {
    let (mut ledger, db, query, mut engine) = setup(vec![0x100, 0x200]);
    let mut msgs = query.search_messages(&mut ledger, 0, 0x3000).unwrap();
    let m1 = step(&mut msgs, &mut ledger, &mut engine).unwrap();
    assert_eq!(m1.ptr, 0x100);
    assert_eq!(m1.slot, 3);
    assert!(m1.is_bound(&ledger));
    let held = ledger.slot(m1.slot).unwrap();
    assert_eq!(held.kind, Kind::Message);
    assert_eq!(held.parent, Some(Token { mode: Mode::Borrowed, owner: query.slot }));
    assert_eq!(ledger.slot(query.slot).unwrap().borrows, 2);

    // The list can go before the message; the query cannot.
    let calls = msgs.release(&mut ledger);
    assert_eq!(calls, vec![Destroy { kind: Kind::Messages, ptr: 0x3000 }]);
    assert!(m1.is_bound(&ledger));
    assert!(!ledger.can_release(query.slot));
    let calls = m1.release(&mut ledger);
    assert_eq!(calls, vec![Destroy { kind: Kind::Message, ptr: 0x100 }]);
    assert!(ledger.can_release(query.slot));
    query.release(&mut ledger);
    let calls = db.release(&mut ledger);
    assert_eq!(calls, vec![Destroy { kind: Kind::Database, ptr: 0x1000 }]);
}

#[test]
fn a_list_that_owns_its_owner_shares_it_with_what_it_yields() {
    let mut ledger = Ledger::new();
    let db = Database::open(&mut ledger, 0x1000).unwrap();
    let query = Query::create(&mut ledger, &db, Mode::Borrowed, 0x2000).unwrap();
    let mut msgs = Messages::from_ptr(&mut ledger, 0x3000, Token::exclusive(query.slot));
    assert_eq!(
        ledger.slot(msgs.slot).unwrap().parent,
        Some(Token { mode: Mode::Exclusive, owner: query.slot })
    );
    let m = msgs.next(&mut ledger, 1, 0x100).unwrap();
    // Sole ownership became a share, and the message holds one too.
    assert_eq!(
        ledger.slot(msgs.slot).unwrap().parent,
        Some(Token { mode: Mode::Shared, owner: query.slot })
    );
    assert_eq!(
        ledger.slot(m.slot).unwrap().parent,
        Some(Token { mode: Mode::Shared, owner: query.slot })
    );
    let q = ledger.slot(query.slot).unwrap();
    assert!(!q.held);
    assert_eq!(q.heirs, 2);

    let calls = msgs.release(&mut ledger);
    assert_eq!(calls, vec![Destroy { kind: Kind::Messages, ptr: 0x3000 }]);
    let calls = m.release(&mut ledger);
    assert_eq!(
        calls,
        vec![
            Destroy { kind: Kind::Message, ptr: 0x100 },
            Destroy { kind: Kind::Query, ptr: 0x2000 },
        ]
    );
    assert!(ledger.can_release(db.slot));
}

#[test]
fn a_failed_search_carries_the_status_and_leaves_the_ledger() {
    let (mut ledger, _db, query, _engine) = setup(vec![]);
    let before = ledger.len();
    let r = query.search_messages(&mut ledger, 7, 0x3000);
    assert_eq!(r.unwrap_err(), Error::OperationFailed(7));
    let r = query.search_threads(&mut ledger, 2, 0x3000);
    assert_eq!(r.unwrap_err(), Error::OperationFailed(2));
    assert_eq!(ledger.len(), before);
    assert_eq!(ledger.slot(query.slot).unwrap().borrows, 0);
    assert!(ledger.can_release(query.slot));
}

#[test]
fn counts_carry_the_number_or_the_status() {
    let (ledger, _db, query, _engine) = setup(vec![]);
    assert_eq!(query.count_messages(&ledger, 0, 42), Ok(42));
    assert_eq!(query.count_messages(&ledger, 0, 0), Ok(0));
    assert_eq!(query.count_messages(&ledger, 13, 42), Err(Error::OperationFailed(13)));
    assert_eq!(query.count_threads(&ledger, 0, u32::MAX), Ok(u32::MAX));
    assert_eq!(query.count_threads(&ledger, 1, 5), Err(Error::OperationFailed(1)));
}

#[test]
fn a_status_is_success_only_if_zero() {
    assert_eq!(as_result(0), Ok(()));
    assert_eq!(as_result(1), Err(Error::OperationFailed(1)));
    assert_eq!(as_result(u32::MAX), Err(Error::OperationFailed(u32::MAX)));
    assert_eq!(Error::OperationFailed(9).code(), Some(9));
    assert_eq!(Error::CreationFailed.code(), None);
}

#[test]
fn sort_orders_have_the_engines_numbers() {
    assert_eq!(Sort::OldestFirst.code(), 0);
    assert_eq!(Sort::NewestFirst.code(), 1);
    assert_eq!(Sort::MessageID.code(), 2);
    assert_eq!(Sort::Unsorted.code(), 3);
    assert_eq!(Sort::from_code(0), Some(Sort::OldestFirst));
    assert_eq!(Sort::from_code(1), Some(Sort::NewestFirst));
    assert_eq!(Sort::from_code(2), Some(Sort::MessageID));
    assert_eq!(Sort::from_code(3), Some(Sort::Unsorted));
    assert_eq!(Sort::from_code(4), None);
    assert_eq!(Sort::from_code(u32::MAX), None);
}

#[test]
fn set_sort_and_sort_forward_the_order() {
    let (ledger, _db, query, _engine) = setup(vec![]);
    for sort in [Sort::OldestFirst, Sort::NewestFirst, Sort::MessageID, Sort::Unsorted] {
        let code = query.set_sort(&ledger, sort);
        assert_eq!(query.sort(&ledger, code), sort);
    }
    assert_eq!(query.set_sort(&ledger, Sort::NewestFirst), 1);
    assert_eq!(query.sort(&ledger, 2), Sort::MessageID);
}

#[test]
fn a_directory_without_children_yields_nothing_at_once() {
    let mut ledger = Ledger::new();
    let db = Database::open(&mut ledger, 0x1000).unwrap();
    let dir = Directory::new(&mut ledger, 0x4000, Token::borrowed(db.slot));

    // The engine gave a list that has nothing at its cursor.
    let mut names = dir.child_directories(&mut ledger, 0x4100);
    assert!(names.is_bound(&ledger));
    assert_eq!(names.cursor, Cursor::Active);
    assert_eq!(names.next(&ledger, 0, String::new()), None);
    assert!(names.cursor.is_exhausted());
    assert_eq!(names.next(&ledger, 1, String::from("late")), None);

    // The engine gave the null handle: nothing is even asked of it.
    let mut none = dir.child_directories(&mut ledger, 0);
    assert!(none.is_bound(&ledger));
    assert!(none.cursor.is_exhausted());
    assert_eq!(none.next(&ledger, 1, String::from("ghost")), None);

    assert_eq!(ledger.slot(dir.slot).unwrap().borrows, 2);
    assert!(!ledger.can_release(dir.slot));
    assert_eq!(names.release(&mut ledger), vec![Destroy { kind: Kind::Filenames, ptr: 0x4100 }]);
    assert_eq!(none.release(&mut ledger), vec![Destroy { kind: Kind::Filenames, ptr: 0 }]);
    assert_eq!(dir.release(&mut ledger), vec![Destroy { kind: Kind::Directory, ptr: 0x4000 }]);
}

#[test]
fn child_directories_come_in_the_engines_order() {
    let mut ledger = Ledger::new();
    let db = Database::open(&mut ledger, 0x1000).unwrap();
    let dir = Directory::new(&mut ledger, 0x4000, Token::shared(db.slot));
    let mut names = dir.child_directories(&mut ledger, 0x4100);
    assert_eq!(names.next(&ledger, 1, String::from("zeta")), Some(String::from("zeta")));
    assert_eq!(names.next(&ledger, 1, String::from("alpha")), Some(String::from("alpha")));
    assert_eq!(names.next(&ledger, 0, String::new()), None);
    assert_eq!(names.next(&ledger, 1, String::from("beta")), None);
}

#[test]
fn tags_are_read_once() {
    let (mut ledger, _db, query, _engine) = setup(vec![0x100]);
    let mut msgs = query.search_messages(&mut ledger, 0, 0x3000).unwrap();
    let m = msgs.next(&mut ledger, 1, 0x100).unwrap();
    let mut tags = Tags::from_ptr(&mut ledger, 0x5000, Token::borrowed(m.slot));
    assert_eq!(tags.next(&ledger, 1, String::from("inbox")), Some(String::from("inbox")));
    assert_eq!(tags.next(&ledger, 1, String::from("unread")), Some(String::from("unread")));
    assert_eq!(tags.next(&ledger, 0, String::new()), None);
    assert_eq!(tags.next(&ledger, 1, String::from("inbox")), None);
    assert!(!ledger.can_release(m.slot));
    tags.release(&mut ledger);
    assert!(ledger.can_release(m.slot));
}

#[test]
fn threads_are_read_once_and_hold_on_to_the_query() {
    let (mut ledger, _db, query, _engine) = setup(vec![]);
    let mut threads: Threads = query.search_threads(&mut ledger, 0, 0x6000).unwrap();
    assert_eq!(threads.cursor, Cursor::Active);
    let t = threads.next(&mut ledger, 1, 0x6100).unwrap();
    assert_eq!(t.ptr, 0x6100);
    assert!(t.is_bound(&ledger));
    assert_eq!(
        ledger.slot(t.slot).unwrap().parent,
        Some(Token { mode: Mode::Borrowed, owner: query.slot })
    );
    assert!(threads.next(&mut ledger, 0, 0).is_none());
    assert!(threads.next(&mut ledger, 1, 0x6200).is_none());
    assert_eq!(threads.release(&mut ledger), vec![Destroy { kind: Kind::Threads, ptr: 0x6000 }]);
    assert!(!ledger.can_release(query.slot));
    assert_eq!(t.release(&mut ledger), vec![Destroy { kind: Kind::Thread, ptr: 0x6100 }]);
    assert!(ledger.can_release(query.slot));
}

#[test]
fn a_list_at_the_null_handle_starts_exhausted() {
    let (mut ledger, _db, query, _engine) = setup(vec![]);
    let mut msgs = query.search_messages(&mut ledger, 0, 0).unwrap();
    assert!(msgs.cursor.is_exhausted());
    assert!(msgs.next(&mut ledger, 1, 0x100).is_none());
    assert_eq!(Cursor::start(0), Cursor::Exhausted);
    assert_eq!(Cursor::start(1), Cursor::Active);
}

#[test]
fn a_cursor_steps_until_the_first_zero() {
    let mut c = Cursor::start(0x10);
    let readings = [1, 5, -1, 0, 1, 1];
    let mut yielded = 0;
    for r in readings {
        if c.advance(r) {
            yielded += 1;
        }
    }
    assert_eq!(yielded, 3);
    assert!(c.is_exhausted());
    let mut d = Cursor::Active;
    assert_eq!(d.take(1, "a"), Some("a"));
    d.exhaust();
    assert_eq!(d.take(1, "b"), None);
}

#[test]
fn a_drained_search_yields_as_many_as_were_valid() {
    for n in 0..6usize {
        let found: Vec<usize> = (0..n).map(|i| 0x100 * (i + 1)).collect();
        let (mut ledger, _db, query, mut engine) = setup(found);
        let (status, count) = engine.count();
        let counted = query.count_messages(&ledger, status, count).unwrap();
        let (status, ptr) = engine.search();
        let mut msgs = query.search_messages(&mut ledger, status, ptr).unwrap();
        let all = drain(&mut msgs, &mut ledger, &mut engine);
        assert_eq!(all.len(), n);
        assert_eq!(all.len() as u32, counted);
        assert_eq!(ledger.slot(query.slot).unwrap().borrows, n + 1);
    }
}

#[test]
fn a_cursor_says_whether_to_read_without_moving() {
    let c = Cursor::Active;
    assert!(c.reads(1));
    assert!(c.reads(-7));
    assert!(!c.reads(0));
    assert_eq!(c, Cursor::Active);
    let e = Cursor::Exhausted;
    assert!(!e.reads(1));
    assert!(!e.reads(0));
}
