use dcbor::array::encode_array;
use dcbor::bytes::Bytes;
use dcbor::cbor_encodable::CBOREncodable;
use dcbor::hex::bytes_to_hex;
use dcbor::test_util::{test_encode, test_encode_array, test_encode_heterogenous_array};

#[test]
fn test_encode_holds_for_the_wire_form_only() {
    assert!(test_encode(Bytes::from_data(&[]), "40"));
    assert!(test_encode(Bytes::from_data(&[0x01, 0x02, 0x03]), "43010203"));
    assert!(test_encode(Bytes::from_hex("deadbeef").unwrap(), "44deadbeef"));
    assert!(!test_encode(Bytes::from_data(&[0x01, 0x02, 0x03]), "43010204"));
    assert!(!test_encode(Bytes::from_data(&[0x01, 0x02, 0x03]), "010203"));
    assert!(!test_encode(Bytes::from_data(&[]), ""));
}

#[test]
fn test_encode_wants_lower_case() {
    assert!(test_encode(Bytes::from_data(&[0xab]), "41ab"));
    assert!(!test_encode(Bytes::from_data(&[0xab]), "41AB"));
}

#[test]
fn empty_array_is_its_header() {
    let none: [Bytes; 0] = [];
    assert_eq!(bytes_to_hex(&encode_array(&none)), "80");
    assert!(test_encode_array(&none, "80"));
}

#[test]
fn array_is_count_then_items_in_order() {
    let items = [
        Bytes::from_data(&[0x01]),
        Bytes::from_data(&[]),
        Bytes::from_data(&[0x02, 0x03]),
    ];
    assert_eq!(bytes_to_hex(&encode_array(&items)), "83410140420203");
    assert!(test_encode_array(&items, "83410140420203"));
    assert!(!test_encode_array(&items, "83400141420203"));
    assert!(!test_encode_array(&items, "410140420203"));
}

#[test]
fn array_of_twenty_four_items_needs_an_extension_byte() {
    let items: Vec<Bytes> = (0..24).map(|_| Bytes::from_data(&[])).collect();
    let mut expected = String::from("9818");
    expected.push_str(&"40".repeat(24));
    assert!(test_encode_array(&items, &expected));
}

#[test]
fn slices_and_vectors_encode_as_arrays() {
    let items = vec![Bytes::from_data(&[0xaa]), Bytes::from_data(&[0xbb])];
    assert_eq!(bytes_to_hex(&items.cbor_data()), "8241aa41bb");
    assert_eq!(bytes_to_hex(&items[..].cbor_data()), "8241aa41bb");
    assert_eq!(bytes_to_hex(&items[..1].cbor_data()), "8141aa");
    assert!(test_encode(items, "8241aa41bb"));
}

#[test]
fn heterogenous_array_holds_items_of_different_types() {
    let nested = vec![Bytes::from_data(&[0x01]), Bytes::from_data(&[0x02])];
    let items: Vec<Box<dyn CBOREncodable>> = vec![
        Box::new(Bytes::from_data(&[0xff])),
        Box::new(nested),
        Box::new(Vec::<Bytes>::new()),
    ];
    assert!(test_encode_heterogenous_array(&items, "8341ff824101410280"));
    assert!(!test_encode_heterogenous_array(&items, "8341ff8241014102"));
}

#[test]
fn boxed_item_encodes_as_the_item() {
    let boxed: Box<dyn CBOREncodable> = Box::new(Bytes::from_data(&[0x01, 0x02]));
    assert_eq!(bytes_to_hex(&boxed.cbor_data()), "420102");
}
