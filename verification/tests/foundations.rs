use bitchat::bytes::{append_bytes, array_12, array_32, array_64, concat_bytes, copy_bytes, is_all};
use bitchat::primitives::{chacha_takes, CHACHA_MAX_PLAINTEXT};
use bitchat::table::Table;
use bitchat::text::{decimal, join3, pad_two, same_text, spaces, starts_with};

#[test]
fn a_table_keeps_the_order_in_which_keys_came() {
    let mut table: Table<u32> = Table::new();
    for (key, value) in [("b", 1), ("a", 2), ("c", 3), ("a", 4)] {
        table.insert(key, value);
    }
    let list = |t: &Table<u32>| {
        (0..t.len()).map(|i| (t.at(i).0.clone(), *t.at(i).1)).collect::<Vec<_>>()
    };
    assert_eq!(
        list(&table),
        vec![("b".to_string(), 1), ("a".to_string(), 4), ("c".to_string(), 3)]
    );
    assert_eq!(table.get("a"), Some(&4));
    assert_eq!(table.get("d"), None);
    *table.get_mut("b").unwrap() += 10;
    assert!(table.get_mut("d").is_none());
    assert!(table.remove("a"));
    assert!(!table.remove("a"));
    assert!(!table.contains("a"));
    assert!(table.contains("c"));
    assert_eq!(list(&table), vec![("b".to_string(), 11), ("c".to_string(), 3)]);
    table.insert("a", 5);
    assert_eq!(table.at(2), (&"a".to_string(), &5));
}

#[test]
fn byte_strings_are_copied_and_joined() {
    let long: Vec<u8> = (0..64).collect();
    assert_eq!(array_64(&long).to_vec(), long);
    assert_eq!(array_32(&long[..32]).to_vec(), long[..32].to_vec());
    assert_eq!(array_12(&long[..12]).to_vec(), long[..12].to_vec());
    let mut head = vec![1, 2];
    append_bytes(&mut head, &[3]);
    assert_eq!(head, vec![1, 2, 3]);
    assert_eq!(concat_bytes(&[1], &[]), vec![1]);
    assert_eq!(copy_bytes(&[]), Vec::<u8>::new());
    assert!(is_all(&[7, 7], 7));
    assert!(!is_all(&[7, 8], 7));
    assert!(is_all(&[], 7));
}

#[test]
fn texts_are_built_and_compared() {
    for n in [0u128, 9, 10, 105, u64::MAX as u128, u128::MAX] {
        assert_eq!(decimal(n), n.to_string());
    }
    assert_eq!(pad_two(7), "07");
    assert_eq!(pad_two(99), "99");
    assert_eq!(spaces(0), "");
    assert_eq!(spaces(3), "   ");
    assert_eq!(join3("a", "", "ü"), "aü");
    assert!(same_text("ü", "ü"));
    assert!(!same_text("u", "ü"));
    assert!(starts_with("cashu:x", "cashu"));
    assert!(starts_with("x", ""));
    assert!(!starts_with("cash", "cashu"));
}

#[test]
fn the_cipher_takes_all_lengths_but_a_few() {
    let most = CHACHA_MAX_PLAINTEXT as usize;
    for (len, taken) in
        [(0, true), (most, true), (most + 1, false), (most + 63, false), (most + 64, true)]
    {
        assert_eq!(chacha_takes(len, false), taken);
        assert_eq!(chacha_takes(len + 16, true), taken);
    }
    assert!(chacha_takes(0, true));
}
