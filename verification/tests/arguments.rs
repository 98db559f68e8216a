use mysql_arguments::arguments::Arguments;
use mysql_arguments::mysql::type_info::{TYPE_LONG, TYPE_VAR_STRING};
use mysql_arguments::mysql::{MySql, MySqlArguments, MySqlTypeInfo};

const LONG: MySqlTypeInfo = MySqlTypeInfo { code: TYPE_LONG, is_unsigned: false };
const VAR_STRING: MySqlTypeInfo = MySqlTypeInfo { code: TYPE_VAR_STRING, is_unsigned: false };

/// The list that binding `values` one by one gives; `None` is `NULL`.
fn list_of(values: &[Option<i32>]) -> MySqlArguments {
    let mut args = MySqlArguments::default();
    for value in values {
        args.add(*value);
    }
    args
}

/// The bitmap that `nulls` should give, computed bit by bit.
fn expected_bitmap(nulls: &[bool]) -> Vec<u8> {
    let mut bytes = vec![0u8; (nulls.len() + 7) / 8];
    for (i, null) in nulls.iter().enumerate() {
        if *null {
            bytes[i / 8] |= 1 << (i % 8);
        }
    }
    bytes
}

fn assert_same(a: &MySqlArguments, b: &MySqlArguments) {
    assert_eq!(a.len(), b.len());
    assert_eq!(a.types(), b.types());
    assert_eq!(a.null_bitmap(), b.null_bitmap());
    assert_eq!(a.values(), b.values());
}

/// Twenty values; those at positions 0, 3, 4, 8, 15, 16 and 19 are `NULL`.
fn sample() -> Vec<Option<i32>> {
    (0..20)
        .map(|i| if [0, 3, 4, 8, 15, 16, 19].contains(&i) { None } else { Some(1000 + i) })
        .collect()
}

#[test]
fn default_is_empty() {
    let args = MySqlArguments::default();
    assert_eq!(args.len(), 0);
    assert!(args.types().is_empty());
    assert!(args.null_bitmap().is_empty());
    assert!(args.values().is_empty());
}

#[test]
fn add_mixed_values() {
    let mut args = MySqlArguments::default();
    args.add(5i32);
    args.add("hi");
    args.add(Option::<i32>::None);
    args.add(7i32);

    assert_eq!(args.len(), 4);
    assert_eq!(args.types().len(), 4);
    assert_eq!(args.types(), &[LONG, VAR_STRING, LONG, LONG]);
    assert_eq!(args.null_bitmap(), &[0b0000_0100]);
    assert_eq!(
        args.values(),
        &[0x05, 0x00, 0x00, 0x00, 0x02, 0x68, 0x69, 0x07, 0x00, 0x00, 0x00]
    );
    assert_eq!(args.values().len(), 4 + 3 + 0 + 4);
}

#[test]
fn extend_null_one_with_two_null_three() {
    let mut a = list_of(&[None, Some(1)]);
    assert_eq!(a.null_bitmap(), &[0b0000_0001]);
    let b = list_of(&[Some(2), None, Some(3)]);
    assert_eq!(b.null_bitmap(), &[0b0000_0010]);

    let mut values = a.values().to_vec();
    values.extend_from_slice(b.values());

    a.extend(b);
    assert_eq!(a.len(), 5);
    assert_eq!(a.types(), &[LONG; 5]);
    assert_eq!(a.null_bitmap(), &[0b0000_1001]);
    assert_eq!(a.values(), &values[..]);
    assert_eq!(
        a.values(),
        &[0x01, 0x00, 0x00, 0x00, 0x02, 0x00, 0x00, 0x00, 0x03, 0x00, 0x00, 0x00]
    );
}

#[test]
fn extend_three_with_five_fills_one_byte() {
    let mut a = list_of(&[Some(1), None, Some(3)]);
    let b = list_of(&[None, Some(5), None, None, Some(8)]);
    assert_eq!(b.null_bitmap(), &[0b0000_1101]);
    a.extend(b);
    assert_eq!(a.len(), 8);
    // bits 0..3 are those of the first list, bits 3..8 are bits 0..5 of the second
    assert_eq!(a.null_bitmap(), &[0b0110_1010]);
}

#[test]
fn extend_three_with_six_spills_into_second_byte() {
    let mut a = list_of(&[Some(1), None, Some(3)]);
    let b = list_of(&[None, Some(5), None, None, Some(8), None]);
    a.extend(b);
    assert_eq!(a.len(), 9);
    assert_eq!(a.null_bitmap(), &[0b0110_1010, 0b0000_0001]);
}

#[test]
fn extend_with_empty_and_onto_empty() {
    let values = sample();
    let whole = list_of(&values);

    let mut a = list_of(&values);
    a.extend(MySqlArguments::default());
    assert_same(&a, &whole);

    let mut b = MySqlArguments::default();
    b.extend(list_of(&values));
    assert_same(&b, &whole);

    let mut c = MySqlArguments::default();
    c.extend(MySqlArguments::default());
    assert_same(&c, &MySqlArguments::default());
}

#[test]
fn extend_equals_adding_at_every_split() {
    let values = sample();
    let whole = list_of(&values);
    for split in 0..=values.len() {
        let mut a = list_of(&values[..split]);
        let b = list_of(&values[split..]);
        a.extend(b);
        assert_same(&a, &whole);
    }
}

#[test]
fn extend_twice_equals_adding() {
    let values = sample();
    let whole = list_of(&values);
    let mut a = list_of(&values[..5]);
    a.extend(list_of(&values[5..11]));
    a.extend(list_of(&values[11..]));
    assert_same(&a, &whole);
}

#[test]
fn add_after_extend_goes_on_where_the_bits_end() {
    let mut a = list_of(&[Some(1), None, Some(3)]);
    a.extend(list_of(&[None, None]));
    a.add(6i32);
    a.add(Option::<i32>::None);
    assert_eq!(a.len(), 7);
    assert_eq!(a.null_bitmap(), &[0b0101_1010]);
}

#[test]
fn counts_after_each_add() {
    let values = sample();
    let mut args = MySqlArguments::default();
    for (n, value) in values.iter().enumerate() {
        assert_eq!(args.types().len(), n);
        assert_eq!(args.null_bitmap().len(), (n + 7) / 8);
        args.add(*value);
    }
    assert_eq!(args.types().len(), 20);
    assert_eq!(args.null_bitmap().len(), 3);
}

#[test]
fn bitmap_length_at_byte_boundaries() {
    let lengths = [(0, 0), (1, 1), (7, 1), (8, 1), (9, 2), (16, 2), (17, 3)];
    for (n, bytes) in lengths {
        let args = list_of(&vec![Some(0); n]);
        assert_eq!(args.len(), n);
        assert_eq!(args.null_bitmap().len(), bytes);
    }
}

#[test]
fn bit_is_set_where_value_is_null() {
    let values = sample();
    let args = list_of(&values);
    let nulls: Vec<bool> = values.iter().map(|v| v.is_none()).collect();
    assert_eq!(args.null_bitmap(), &expected_bitmap(&nulls)[..]);
    assert_eq!(args.null_bitmap(), &[0b0001_1001, 0b1000_0001, 0b0000_1001]);
    for (i, null) in nulls.iter().enumerate() {
        let bit = args.null_bitmap()[i / 8] >> (i % 8) & 1;
        assert_eq!(bit == 1, *null);
    }
}

#[test]
fn unused_bits_of_last_byte_are_clear() {
    let args = list_of(&[None, None, None]);
    assert_eq!(args.null_bitmap(), &[0b0000_0111]);
    let args = list_of(&[None; 9]);
    assert_eq!(args.null_bitmap(), &[0b1111_1111, 0b0000_0001]);
}

#[test]
fn values_stand_at_the_sum_of_the_lengths_before() {
    let mut args = MySqlArguments::default();
    args.add("abc");
    args.add(Option::<&str>::None);
    args.add(0x0102_0304i32);
    args.add("");
    args.add(Some("de"));
    args.add(-2i32);

    let lengths = [4, 0, 4, 1, 3, 4];
    let encodings: [&[u8]; 6] = [
        &[3, b'a', b'b', b'c'],
        &[],
        &[4, 3, 2, 1],
        &[0],
        &[2, b'd', b'e'],
        &[0xfe, 0xff, 0xff, 0xff],
    ];
    let mut offset = 0;
    for i in 0..6 {
        assert_eq!(&args.values()[offset..offset + lengths[i]], encodings[i]);
        offset += lengths[i];
    }
    assert_eq!(args.values().len(), offset);
    assert_eq!(args.null_bitmap(), &[0b0000_0010]);
    assert_eq!(args.types(), &[VAR_STRING, VAR_STRING, LONG, VAR_STRING, VAR_STRING, LONG]);
}

#[test]
fn types_keep_the_unsigned_flag() {
    let mut args = MySqlArguments::default();
    args.add(1u32);
    args.add(-1i32);
    args.add(Option::<u32>::None);
    let unsigned_long = MySqlTypeInfo { code: TYPE_LONG, is_unsigned: true };
    assert_eq!(args.types(), &[unsigned_long, LONG, unsigned_long]);
    assert_eq!(args.null_bitmap(), &[0b0000_0100]);
    assert_eq!(args.values(), &[0x01, 0x00, 0x00, 0x00, 0xff, 0xff, 0xff, 0xff]);
}

#[test]
fn null_adds_no_bytes() {
    let mut args = MySqlArguments::default();
    args.add(1i32);
    let before = args.values().to_vec();
    args.add(Option::<i32>::None);
    assert_eq!(args.values(), &before[..]);
    assert_eq!(args.len(), 2);
}

#[test]
fn reserve_changes_nothing() {
    let values = sample();
    let plain = list_of(&values);

    let mut reserved = MySqlArguments::default();
    reserved.reserve(64, 1024);
    assert_same(&reserved, &MySqlArguments::default());
    for value in &values {
        reserved.add(*value);
    }
    assert_same(&reserved, &plain);

    let mut midway = list_of(&values[..9]);
    midway.reserve(0, 0);
    midway.reserve(11, 44);
    assert_same(&midway, &list_of(&values[..9]));
    for value in &values[9..] {
        midway.add(*value);
    }
    assert_same(&midway, &plain);
}

/// Binds through the trait alone, as a query builder does.
fn bind_through_trait<A: Arguments<Database = MySql>>(args: &mut A, tail: A) {
    args.reserve(2, 7);
    args.add(5i32);
    args.add("hi");
    args.extend(tail);
}

#[test]
fn trait_methods_do_what_the_list_does() {
    let mut through_trait = MySqlArguments::default();
    bind_through_trait(&mut through_trait, list_of(&[None, Some(7)]));

    let mut direct = MySqlArguments::default();
    direct.add(5i32);
    direct.add("hi");
    direct.add(Option::<i32>::None);
    direct.add(7i32);

    assert_same(&through_trait, &direct);
    assert_eq!(through_trait.null_bitmap(), &[0b0000_0100]);
}

#[test]
fn debug_names_the_three_buffers() {
    let args = list_of(&[Some(1)]);
    let text = format!("{:?}", args);
    assert!(text.contains("values"));
    assert!(text.contains("types"));
    assert!(text.contains("null_bitmap"));
}
