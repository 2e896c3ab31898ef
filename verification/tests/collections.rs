use encke::accounts::AccountLedger;
use encke::book::{involves_user, is_well_formed, PositionBook};
use encke::registry::{TokenConfig, TokenRegistry};
use encke::state::{determine_token_type, Position, Token};

fn s(text: &str) -> String {
    text.to_string()
}

fn open_position(borrower: &str, amount: u128) -> Position {
    Position {
        borrower: s(borrower),
        lender: None,
        borrow_token: Token::Native(s("untrn")),
        collateral_token: Token::Cw20(s("token1")),
        amount,
        interest_rate: 500,
        collateral: 2 * amount,
        start_time: 0,
        filled: false,
    }
}

fn filled_position(borrower: &str, lender: &str, amount: u128) -> Position {
    Position {
        lender: Some(s(lender)),
        start_time: 1_000,
        filled: true,
        ..open_position(borrower, amount)
    }
}

#[test]
fn identifier_resolves_by_its_form() {
    assert_eq!(determine_token_type("untrn", false), Token::Native(s("untrn")));
    assert_eq!(determine_token_type("neutron1abc", true), Token::Cw20(s("neutron1abc")));
    assert_eq!(determine_token_type("neutron1abc", true).identifier(), "neutron1abc");
    assert_eq!(determine_token_type("", false), Token::Native(s("")));
}

#[test]
fn registry_lists_tokens_in_identifier_order() {
    let mut registry = TokenRegistry::new();
    assert!(registry.configs().is_empty());
    assert!(!registry.is_supported(&s("untrn")));
    registry.add(Token::Native(s("untrn")));
    registry.add(Token::Cw20(s("contract1")));
    registry.add(Token::Native(s("uatom")));
    registry.add(Token::Native(s("untrn")));
    assert!(registry.is_supported(&s("untrn")));
    assert!(registry.is_supported(&s("contract1")));
    assert!(!registry.is_supported(&s("contract2")));
    assert_eq!(registry.resolve(&s("contract1")), Some(Token::Cw20(s("contract1"))));
    assert_eq!(registry.resolve(&s("uatom")), Some(Token::Native(s("uatom"))));
    assert_eq!(registry.resolve(&s("nothing")), None);
    assert_eq!(
        registry.configs(),
        vec![
            TokenConfig { token: Token::Cw20(s("contract1")), is_supported: true },
            TokenConfig { token: Token::Native(s("uatom")), is_supported: true },
            TokenConfig { token: Token::Native(s("untrn")), is_supported: true },
        ]
    );
}

#[test]
fn registry_keeps_a_token_that_is_not_accepted() {
    let mut registry = TokenRegistry::new();
    registry.set(TokenConfig { token: Token::Native(s("old")), is_supported: false });
    assert!(!registry.is_supported(&s("old")));
    assert_eq!(registry.resolve(&s("old")), Some(Token::Native(s("old"))));
    registry.add(Token::Native(s("old")));
    assert!(registry.is_supported(&s("old")));
    assert_eq!(registry.configs().len(), 1);
}

#[test]
fn balance_of_zero_is_no_entry() {
    let mut accounts = AccountLedger::new();
    assert_eq!(accounts.balance(&s("alice"), &s("untrn")), 0);
    accounts.set_balance(&s("alice"), &s("untrn"), 0);
    assert!(accounts.entries().is_empty());
    accounts.set_balance(&s("alice"), &s("untrn"), 5);
    assert_eq!(accounts.balance(&s("alice"), &s("untrn")), 5);
    assert_eq!(accounts.entries(), vec![(s("alice"), s("untrn"), 5)]);
    accounts.set_balance(&s("alice"), &s("untrn"), 7);
    assert_eq!(accounts.entries(), vec![(s("alice"), s("untrn"), 7)]);
    accounts.set_balance(&s("alice"), &s("untrn"), 0);
    assert!(accounts.entries().is_empty());
    assert_eq!(accounts.balance(&s("alice"), &s("untrn")), 0);
    assert!(accounts.holdings(&s("alice")).is_empty());
}

#[test]
fn holdings_are_per_user_and_ordered_by_token() {
    let mut accounts = AccountLedger::new();
    accounts.set_balance(&s("alice"), &s("untrn"), 1);
    accounts.set_balance(&s("bob"), &s("uatom"), 2);
    accounts.set_balance(&s("alice"), &s("contract1"), 3);
    accounts.set_balance(&s("alice"), &s("uatom"), 4);
    accounts.set_balance(&s("bob"), &s("contract1"), 5);
    assert_eq!(
        accounts.holdings(&s("alice")),
        vec![(s("contract1"), 3), (s("uatom"), 4), (s("untrn"), 1)]
    );
    assert_eq!(accounts.holdings(&s("bob")), vec![(s("contract1"), 5), (s("uatom"), 2)]);
    assert!(accounts.holdings(&s("carol")).is_empty());
    assert_eq!(accounts.balance(&s("bob"), &s("untrn")), 0);
    assert_eq!(accounts.entries().len(), 5);
    accounts.set_balance(&s("alice"), &s("uatom"), 0);
    assert_eq!(accounts.holdings(&s("alice")), vec![(s("contract1"), 3), (s("untrn"), 1)]);
    assert_eq!(accounts.holdings(&s("bob")), vec![(s("contract1"), 5), (s("uatom"), 2)]);
}

#[test]
fn book_numbers_positions_from_one() {
    let mut book = PositionBook::new();
    assert_eq!(book.counter(), 0);
    assert_eq!(book.open(open_position("alice", 10)), 1);
    assert_eq!(book.open(open_position("bob", 20)), 2);
    assert_eq!(book.open(open_position("carol", 30)), 3);
    assert_eq!(book.counter(), 3);
    assert_eq!(book.get(2), Some(open_position("bob", 20)));
    assert_eq!(book.get(0), None);
    assert_eq!(book.get(4), None);
}

#[test]
fn closed_identifier_is_not_handed_out_again() {
    let mut book = PositionBook::new();
    book.open(open_position("alice", 10));
    book.open(open_position("bob", 20));
    book.remove(2);
    assert_eq!(book.get(2), None);
    assert_eq!(book.counter(), 2);
    assert_eq!(book.open(open_position("carol", 30)), 3);
    book.remove(1);
    book.remove(1);
    book.remove(17);
    assert_eq!(book.page(None, None), vec![(3, open_position("carol", 30))]);
}

#[test]
fn replace_keeps_identifier_and_counter() {
    let mut book = PositionBook::new();
    book.open(open_position("alice", 10));
    book.open(open_position("bob", 20));
    book.replace(1, filled_position("alice", "dave", 10));
    assert_eq!(book.get(1), Some(filled_position("alice", "dave", 10)));
    assert_eq!(book.get(2), Some(open_position("bob", 20)));
    assert_eq!(book.counter(), 2);
}

#[test]
fn page_is_clamped_to_one_hundred() {
    let mut book = PositionBook::new();
    for n in 1..=250u128 {
        book.open(open_position("alice", n));
    }
    let first = book.page(None, Some(1_000));
    assert_eq!(first.len(), 100);
    assert_eq!(first[0].0, 1);
    assert_eq!(first[99].0, 100);
    let default = book.page(None, None);
    assert_eq!(default, first);
    let exact = book.page(None, Some(100));
    assert_eq!(exact, first);
    let over = book.page(None, Some(101));
    assert_eq!(over, first);
    let max = book.page(None, Some(u32::MAX));
    assert_eq!(max, first);
}

#[test]
fn page_starts_after_the_cursor() {
    let mut book = PositionBook::new();
    for n in 1..=250u128 {
        book.open(open_position("alice", n));
    }
    let second = book.page(Some(100), None);
    assert_eq!(second.len(), 100);
    assert_eq!(second[0].0, 101);
    assert_eq!(second[99].0, 200);
    let third = book.page(Some(200), None);
    assert_eq!(third.len(), 50);
    assert_eq!(third[0].0, 201);
    assert_eq!(third[49].0, 250);
    assert!(book.page(Some(250), None).is_empty());
    assert!(book.page(Some(u128::MAX), None).is_empty());
    let few = book.page(Some(7), Some(3));
    assert_eq!(few.iter().map(|e| e.0).collect::<Vec<u128>>(), vec![8, 9, 10]);
    assert_eq!(few[0].1, open_position("alice", 8));
    assert!(book.page(None, Some(0)).is_empty());
    assert_eq!(book.page(Some(0), Some(1)), vec![(1, open_position("alice", 1))]);
}

#[test]
fn page_skips_closed_positions_and_stays_ascending() {
    let mut book = PositionBook::new();
    for n in 1..=10u128 {
        book.open(open_position("alice", n));
    }
    book.remove(3);
    book.remove(4);
    book.remove(9);
    let ids: Vec<u128> = book.page(Some(1), Some(5)).iter().map(|e| e.0).collect();
    assert_eq!(ids, vec![2, 5, 6, 7, 8]);
    let ids: Vec<u128> = book.page(Some(3), None).iter().map(|e| e.0).collect();
    assert_eq!(ids, vec![5, 6, 7, 8, 10]);
}

#[test]
fn involving_lists_borrower_and_lender() {
    let mut book = PositionBook::new();
    book.open(open_position("alice", 10));
    book.open(filled_position("bob", "alice", 20));
    book.open(filled_position("bob", "carol", 30));
    book.open(open_position("alice", 40));
    let ids: Vec<u128> = book.involving(&s("alice")).iter().map(|e| e.0).collect();
    assert_eq!(ids, vec![1, 2, 4]);
    let ids: Vec<u128> = book.involving(&s("carol")).iter().map(|e| e.0).collect();
    assert_eq!(ids, vec![3]);
    assert!(book.involving(&s("dave")).is_empty());
    assert!(involves_user(&filled_position("bob", "carol", 1), &s("carol")));
    assert!(involves_user(&filled_position("bob", "carol", 1), &s("bob")));
    assert!(!involves_user(&open_position("bob", 1), &s("carol")));
}

#[test]
fn position_is_well_formed_when_filled_iff_lender() {
    assert!(is_well_formed(&open_position("alice", 1)));
    assert!(is_well_formed(&filled_position("alice", "bob", 1)));
    let mut broken = open_position("alice", 1);
    broken.filled = true;
    assert!(!is_well_formed(&broken));
    let mut broken = open_position("alice", 1);
    broken.lender = Some(s("bob"));
    assert!(!is_well_formed(&broken));
    let mut broken = open_position("alice", 1);
    broken.start_time = 5;
    assert!(!is_well_formed(&broken));
    let mut at_zero = filled_position("alice", "bob", 1);
    at_zero.start_time = 0;
    assert!(is_well_formed(&at_zero));
}

#[test]
fn book_hands_out_what_restores_it() {
    let mut book = PositionBook::new();
    for n in 1..=120u128 {
        book.open(open_position("alice", n));
    }
    book.remove(60);
    book.replace(7, filled_position("alice", "bob", 7));
    let entries = book.entries();
    assert_eq!(entries.len(), 119);
    assert_eq!(entries[0], (1, open_position("alice", 1)));
    assert_eq!(entries[6], (7, filled_position("alice", "bob", 7)));
    assert_eq!(entries[118], (120, open_position("alice", 120)));
    let restored = PositionBook::restore(book.counter(), entries.clone()).unwrap();
    assert_eq!(restored.entries(), entries);
    assert_eq!(restored.counter(), 120);
}

#[test]
fn book_is_restored_only_from_valid_parts() {
    let stored = vec![(2, open_position("alice", 10)), (5, filled_position("bob", "carol", 20))];
    let book = PositionBook::restore(7, stored).unwrap();
    assert_eq!(book.counter(), 7);
    assert_eq!(book.get(5), Some(filled_position("bob", "carol", 20)));
    assert_eq!(book.get(2), Some(open_position("alice", 10)));
    assert_eq!(book.get(1), None);
    assert!(PositionBook::restore(0, vec![]).is_some());
    // identifier beyond the counter
    assert!(PositionBook::restore(4, vec![(5, open_position("alice", 10))]).is_none());
    // identifier zero
    assert!(PositionBook::restore(4, vec![(0, open_position("alice", 10))]).is_none());
    // not ascending
    let twice = vec![(2, open_position("alice", 10)), (2, open_position("bob", 10))];
    assert!(PositionBook::restore(4, twice).is_none());
    let back = vec![(3, open_position("alice", 10)), (2, open_position("bob", 10))];
    assert!(PositionBook::restore(4, back).is_none());
    // position filled without lender
    let mut broken = open_position("alice", 1);
    broken.filled = true;
    assert!(PositionBook::restore(4, vec![(1, broken)]).is_none());
}
