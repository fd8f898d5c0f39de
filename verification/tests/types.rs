use uruk_protocol::arith;
use uruk_protocol::error::Error;
use uruk_protocol::strkey;
use uruk_protocol::table::Table;
use uruk_protocol::types::{Address, Symbol};

#[test]
fn arithmetic_is_checked() {
    assert_eq!(arith::plus(2, 3), Ok(5));
    assert_eq!(arith::plus(i128::MAX, 1), Err(Error::Arithmetic));
    assert_eq!(arith::minus(i128::MIN, 1), Err(Error::Arithmetic));
    assert_eq!(arith::times(i128::MAX, 2), Err(Error::Arithmetic));
    assert_eq!(arith::over(7, 2), Ok(3));
    assert_eq!(arith::over(-7, 2), Ok(-3));
    assert_eq!(arith::over(7, -2), Ok(-3));
    assert_eq!(arith::over(-7, -2), Ok(3));
    assert_eq!(arith::over(7, 0), Err(Error::Arithmetic));
    assert_eq!(arith::over(i128::MIN, -1), Err(Error::Arithmetic));
    assert_eq!(arith::times_over(10, 3, 4), Ok(7));
    assert_eq!(arith::saturating_times(i128::MAX, -2), i128::MIN);
    assert_eq!(arith::saturating_times(i128::MIN, i128::MIN), i128::MAX);
    assert_eq!(arith::saturating_plus(i128::MAX, 5), i128::MAX);
    assert_eq!(arith::saturating_plus(i128::MIN, -5), i128::MIN);
}

#[test]
fn symbols_spell_what_they_were_made_from() {
    let s = Symbol::new(b"XLM_USD2").unwrap();
    assert_eq!(s.bytes(), b"XLM_USD2".to_vec());
    let long = b"abcdefghijklmnopABCDEFGHIJKLMNOP";
    assert_eq!(Symbol::new(long).unwrap().bytes(), long.to_vec());
    assert_eq!(Symbol::new(b"").unwrap().bytes(), Vec::<u8>::new());
    assert_eq!(Symbol::new(b"abcdefghijklmnopABCDEFGHIJKLMNOPQ"), None);
    assert_eq!(Symbol::new(b"no spaces"), None);
    assert_eq!(Symbol::new(b"a-b"), None);
    assert_ne!(Symbol::new(b"ab"), Symbol::new(b"ba"));
}

#[test]
fn tables_keep_the_last_record() {
    let mut t: Table<u32, i128> = Table::new();
    assert!(!t.contains(&1));
    t.insert(1, 10);
    t.insert(2, 20);
    t.insert(1, 11);
    assert_eq!(t.get(&1), Some(&11));
    assert_eq!(t.take(&1), Some(11));
    assert_eq!(t.get(&1), None);
    assert_eq!(t.take(&1), None);
    t.remove(&2);
    assert!(!t.contains(&2));
}

#[test]
fn strkeys_are_read() {
    // The account of thirty-two zero bytes.
    let zero = "GAAAAAAAAAAAAAAAAAAAAAAAAAAAAAAAAAAAAAAAAAAAAAAAAAAAAWHF";
    assert_eq!(
        strkey::read_address(zero.as_bytes()),
        Some(Address { contract: false, hi: 0, lo: 0 })
    );
    // The contract of thirty-one zero bytes and a one.
    let contract = "CAAAAAAAAAAAAAAAAAAAAAAAAAAAAAAAAAAAAAAAAAAAAAAAAAAAD2KM";
    assert_eq!(
        strkey::read_address(contract.as_bytes()),
        Some(Address { contract: true, hi: 0, lo: 1 })
    );
    // A wrong checksum, a wrong alphabet, a wrong length, no text.
    let wrong = "GAAAAAAAAAAAAAAAAAAAAAAAAAAAAAAAAAAAAAAAAAAAAAAAAAAAAWHG";
    assert_eq!(strkey::read_address(wrong.as_bytes()), None);
    assert_eq!(strkey::read_address(b"hello"), None);
    assert_eq!(strkey::read_address(b""), None);
    assert_eq!(strkey::read_address(&[0xff, 0xfe]), None);
}

#[test]
fn a_strkey_spells_its_key() {
    // A well-known key: 3f0c34bf93ad0d9971d04ccc90f705511c838aad9734a4a2fb0d7a03fc7fe89a
    let text = "GA7QYNF7SOWQ3GLR2BGMZEHXAVIRZA4KVWLTJJFC7MGXUA74P7UJVSGZ";
    assert_eq!(
        strkey::read_address(text.as_bytes()),
        Some(Address {
            contract: false,
            hi: 0x3f0c34bf93ad0d9971d04ccc90f70551,
            lo: 0x1c838aad9734a4a2fb0d7a03fc7fe89a,
        })
    );
    let mut key = [0u8; 32];
    key[0] = 1;
    key[31] = 2;
    assert_eq!(
        strkey::address_from_keys(None, Some(key)),
        Some(Address { contract: true, hi: 1 << 120, lo: 2 })
    );
    assert_eq!(strkey::address_from_keys(None, None), None);
    assert_eq!(Address::from_key(false, &key).lo, 2);
}

#[test]
fn reasons_have_words() {
    assert_eq!(Error::Arithmetic.message(), "arithmetic overflow");
    assert_eq!(Error::VaultNotFound.message(), "vault not found — open one first");
    assert_eq!(Error::ShareTooHigh.message(), "exceeds max 80%");
}
