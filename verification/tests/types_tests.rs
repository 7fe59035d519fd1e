use hmcdk::abi::{AbiInteger, AbiPrimitive};
use hmcdk::error::Error;
use hmcdk::types::{Address, ArgBytes, FromBytes, ToBytes};
use hmcdk::value::TypedValue;

struct Args {
    args: Vec<ArgBytes>,
}

impl Args {
    fn new() -> Self {
        Args { args: vec![] }
    }

    fn push(&mut self, v: ArgBytes) {
        self.args.push(v)
    }

    pub fn get_arg<T: FromBytes>(&self, idx: usize) -> Result<T, Error> {
        let b = &self.args[idx];
        Ok(T::from_bytes(b)?)
    }
}

fn test_type_conversion<T: ToBytes + FromBytes + std::fmt::Debug + Eq>(v: T) {
    let mut a = Args::new();
    let b1 = v.to_bytes();
    a.push(b1.clone());

    let vv: Vec<u8> = a.get_arg(0).unwrap();
    assert_eq!(b1, vv);
    let vi: T = a.get_arg(0).unwrap();
    assert_eq!(v, vi);
}

fn test_try_conversion<
    T: ToBytes + FromBytes + std::fmt::Debug + Eq,
    U: ToBytes + FromBytes + std::fmt::Debug + Eq,
>(
    v: T,
) -> Result<(), Error> {
    let mut a = Args::new();
    let b1 = v.to_bytes();
    a.push(b1.clone());

    let _: U = a.get_arg(0)?;
    Ok(())
}

#[test]
fn test_from_bytes() {
    test_type_conversion(1u8);
    test_type_conversion(1u16);
    test_type_conversion(1u32);
    test_type_conversion(1u64);
    test_type_conversion(1i8);
    test_type_conversion(1i16);
    test_type_conversion(1i32);
    test_type_conversion(1i64);
    test_type_conversion("test".to_string());
    test_type_conversion(Vec::<u8>::new());
    test_type_conversion(b"test".to_vec());
    test_type_conversion(true);
    test_type_conversion(false);

    assert!(test_try_conversion::<i32, i32>(-1).is_ok());
    assert!(test_try_conversion::<i32, u32>(-1).is_ok());
    assert!(test_try_conversion::<i32, i64>(1).is_err());
    assert!(test_try_conversion::<i64, i32>(1).is_err());
    assert!(test_try_conversion::<i16, u16>(1).is_ok());
    assert!(test_try_conversion::<i32, u32>(1).is_ok());
    assert!(test_try_conversion::<i64, u64>(1).is_ok());
    assert!(test_try_conversion::<String, i64>("test".to_string()).is_err());
    assert!(test_try_conversion::<String, u64>("test".to_string()).is_err());
    assert!(test_try_conversion::<String, Vec<u8>>("test".to_string()).is_ok());
    assert!(test_try_conversion::<String, String>("test".to_string()).is_ok());
    assert!(test_try_conversion::<Vec<u8>, String>(b"test".to_vec()).is_ok());
    assert!(test_try_conversion::<Vec<u8>, Vec<u8>>(b"test".to_vec()).is_ok());
    assert!(test_try_conversion::<Vec<u8>, i8>(b"1".to_vec()).is_ok());
    assert!(test_try_conversion::<Vec<u8>, u8>(b"1".to_vec()).is_ok());
    assert!(test_try_conversion::<u8, Vec<u8>>('1' as u8).is_ok());
    assert!(test_try_conversion::<i8, Vec<u8>>('1' as i8).is_ok());
    assert!(test_try_conversion::<Vec<u8>, i64>(b"test".to_vec()).is_err());
    assert!(test_try_conversion::<Vec<u8>, u64>(b"test".to_vec()).is_err());
    assert!(test_try_conversion::<i8, bool>(1).is_ok());
    assert!(test_try_conversion::<i8, bool>(0).is_ok());
    assert!(test_try_conversion::<i8, bool>(-1).is_err());
    assert!(test_try_conversion::<u8, bool>(2).is_err());
    assert!(test_try_conversion::<u8, bool>(1).is_ok());
    assert!(test_try_conversion::<u8, bool>(0).is_ok());
    assert!(test_try_conversion::<u8, bool>(2).is_err());
    assert!(test_try_conversion::<bool, u8>(true).is_ok());
    assert!(test_try_conversion::<bool, u8>(false).is_ok());
    assert!(test_try_conversion::<bool, i8>(true).is_ok());
    assert!(test_try_conversion::<bool, i8>(false).is_ok());
}

#[test]
fn integers_are_big_endian() {
    assert_eq!(0x12u8.to_bytes(), vec![0x12]);
    assert_eq!(0x1234u16.to_bytes(), vec![0x12, 0x34]);
    assert_eq!(0x1234_5678u32.to_bytes(), vec![0x12, 0x34, 0x56, 0x78]);
    assert_eq!(
        0x0102_0304_0506_0708u64.to_bytes(),
        vec![1, 2, 3, 4, 5, 6, 7, 8]
    );
    assert_eq!(u64::MAX.to_bytes(), vec![255; 8]);
    assert_eq!((-1i8).to_bytes(), vec![255]);
    assert_eq!((-2i16).to_bytes(), vec![255, 254]);
    assert_eq!(i32::MIN.to_bytes(), vec![0x80, 0, 0, 0]);
    assert_eq!(i64::MIN.to_bytes(), vec![0x80, 0, 0, 0, 0, 0, 0, 0]);
    assert_eq!(i64::MAX.to_bytes(), vec![0x7f, 255, 255, 255, 255, 255, 255, 255]);
    assert_eq!(10000i64.to_bytes(), 10000i64.to_be_bytes().to_vec());
}

#[test]
fn integers_round_trip_at_their_limits() {
    for v in [u8::MIN, 1, 127, 128, u8::MAX] {
        assert_eq!(u8::from_bytes(&v.to_bytes()), Ok(v));
    }
    for v in [u16::MIN, 255, 256, u16::MAX] {
        assert_eq!(u16::from_bytes(&v.to_bytes()), Ok(v));
    }
    for v in [u32::MIN, 65535, 65536, u32::MAX] {
        assert_eq!(u32::from_bytes(&v.to_bytes()), Ok(v));
    }
    for v in [u64::MIN, 1 << 32, 1 << 63, u64::MAX] {
        assert_eq!(u64::from_bytes(&v.to_bytes()), Ok(v));
    }
    for v in [i8::MIN, -1, 0, 1, i8::MAX] {
        assert_eq!(i8::from_bytes(&v.to_bytes()), Ok(v));
    }
    for v in [i16::MIN, -1, 0, 1, i16::MAX] {
        assert_eq!(i16::from_bytes(&v.to_bytes()), Ok(v));
    }
    for v in [i32::MIN, -1, 0, 1, i32::MAX] {
        assert_eq!(i32::from_bytes(&v.to_bytes()), Ok(v));
    }
    for v in [i64::MIN, -1, 0, 1, i64::MAX] {
        assert_eq!(i64::from_bytes(&v.to_bytes()), Ok(v));
    }
}

#[test]
fn integers_decode_like_std() {
    assert_eq!(u32::from_bytes(&[0, 0, 1, 2]), Ok(258));
    assert_eq!(i32::from_bytes(&[255, 255, 255, 254]), Ok(-2));
    assert_eq!(i16::from_bytes(&[0x80, 0]), Ok(i16::MIN));
    assert_eq!(
        i64::from_bytes(&[1, 2, 3, 4, 5, 6, 7, 8]),
        Ok(i64::from_be_bytes([1, 2, 3, 4, 5, 6, 7, 8]))
    );
}

#[test]
fn cross_type_decode() {
    assert_eq!(u32::from_bytes(&(-1i32).to_bytes()), Ok(u32::MAX));
    assert_eq!(i32::from_bytes(&u32::MAX.to_bytes()), Ok(-1));
    assert_eq!(u16::from_bytes(&(-2i16).to_bytes()), Ok(65534));
    assert_eq!(
        i64::from_bytes(&7i32.to_bytes()),
        Err(Error::LengthMismatch { expected: 8, actual: 4 })
    );
    assert_eq!(
        i32::from_bytes(&7i64.to_bytes()),
        Err(Error::LengthMismatch { expected: 4, actual: 8 })
    );
    assert_eq!(
        u8::from_bytes(&7u16.to_bytes()),
        Err(Error::LengthMismatch { expected: 1, actual: 2 })
    );
    assert_eq!(
        u16::from_bytes(&[]),
        Err(Error::LengthMismatch { expected: 2, actual: 0 })
    );
}

#[test]
fn bool_accepts_zero_and_one_only() {
    assert_eq!(true.to_bytes(), vec![1]);
    assert_eq!(false.to_bytes(), vec![0]);
    assert_eq!(bool::from_bytes(&[0]), Ok(false));
    assert_eq!(bool::from_bytes(&[1]), Ok(true));
    assert_eq!(bool::from_bytes(&[2]), Err(Error::InvalidBoolValue(2)));
    assert_eq!(bool::from_bytes(&[255]), Err(Error::InvalidBoolValue(255)));
    assert_eq!(
        bool::from_bytes(&[]),
        Err(Error::LengthMismatch { expected: 1, actual: 0 })
    );
    assert_eq!(
        bool::from_bytes(&[1, 1]),
        Err(Error::LengthMismatch { expected: 1, actual: 2 })
    );
}

#[test]
fn string_is_checked_utf8() {
    assert_eq!(String::from_bytes(b"test"), Ok("test".to_string()));
    assert_eq!(String::from_bytes(b""), Ok(String::new()));
    assert_eq!(
        String::from_bytes("h\u{e9}llo \u{1f600}".as_bytes()),
        Ok("h\u{e9}llo \u{1f600}".to_string())
    );
    assert_eq!("h\u{e9}".to_string().to_bytes(), vec![b'h', 0xc3, 0xa9]);
    assert_eq!(String::from_bytes(&[0xff]), Err(Error::InvalidUtf8));
    assert_eq!(String::from_bytes(&[0xc3]), Err(Error::InvalidUtf8));
    assert_eq!(String::from_bytes(&[0xed, 0xa0, 0x80]), Err(Error::InvalidUtf8));
    assert_eq!(String::from_bytes(&[0xc0, 0x80]), Err(Error::InvalidUtf8));
}

#[test]
fn bytes_never_fail() {
    assert_eq!(Vec::<u8>::from_bytes(&[]), Ok(vec![]));
    assert_eq!(Vec::<u8>::from_bytes(&[0xff, 0, 1]), Ok(vec![0xff, 0, 1]));
    assert_eq!(vec![3u8, 2, 1].to_bytes(), vec![3, 2, 1]);
}

#[test]
fn address_and_hash_are_strict() {
    let mut a: Address = [0; 20];
    for (i, b) in a.iter_mut().enumerate() {
        *b = i as u8 + 1;
    }
    assert_eq!(a.to_bytes(), a.to_vec());
    assert_eq!(Address::from_bytes(&a.to_vec()), Ok(a));
    let mut h: hmcdk::types::Hash = [0; 32];
    for (i, b) in h.iter_mut().enumerate() {
        *b = 255 - i as u8;
    }
    assert_eq!(h.to_bytes(), h.to_vec());
    assert_eq!(hmcdk::types::Hash::from_bytes(&h.to_vec()), Ok(h));
    for n in [0usize, 1, 19, 21, 32, 64] {
        assert_eq!(
            Address::from_bytes(&vec![1u8; n]),
            Err(Error::LengthMismatch { expected: 20, actual: n })
        );
    }
    for n in [0usize, 20, 31, 33, 65] {
        assert_eq!(
            hmcdk::types::Hash::from_bytes(&vec![1u8; n]),
            Err(Error::LengthMismatch { expected: 32, actual: n })
        );
    }
}

#[test]
fn typed_values_round_trip() {
    let values = vec![
        TypedValue::I8(-5),
        TypedValue::I16(-300),
        TypedValue::I32(i32::MIN),
        TypedValue::I64(i64::MAX),
        TypedValue::U8(200),
        TypedValue::U16(65535),
        TypedValue::U32(0),
        TypedValue::U64(u64::MAX),
        TypedValue::Bool(true),
        TypedValue::Bool(false),
        TypedValue::Bytes(vec![]),
        TypedValue::Bytes(vec![1, 2, 3]),
        TypedValue::String("caf\u{e9}".to_string()),
        TypedValue::Address([7; 20]),
        TypedValue::Hash([9; 32]),
    ];
    for v in values {
        let kind = v.kind();
        assert_eq!(TypedValue::from_bytes(kind, &v.to_bytes()), Ok(v));
    }
}

#[test]
fn typed_values_decode_by_kind() {
    let bytes = (-1i32).to_bytes();
    assert_eq!(
        TypedValue::from_bytes(AbiPrimitive::Integer(AbiInteger::U32), &bytes),
        Ok(TypedValue::U32(u32::MAX))
    );
    assert_eq!(
        TypedValue::from_bytes(AbiPrimitive::Integer(AbiInteger::I32), &bytes),
        Ok(TypedValue::I32(-1))
    );
    assert_eq!(
        TypedValue::from_bytes(AbiPrimitive::Integer(AbiInteger::I64), &bytes),
        Err(Error::LengthMismatch { expected: 8, actual: 4 })
    );
    assert_eq!(
        TypedValue::from_bytes(AbiPrimitive::Bytes, &bytes),
        Ok(TypedValue::Bytes(vec![255; 4]))
    );
    assert_eq!(
        TypedValue::from_bytes(AbiPrimitive::String, &bytes),
        Err(Error::InvalidUtf8)
    );
    assert_eq!(
        TypedValue::from_bytes(AbiPrimitive::Bool, &[3]),
        Err(Error::InvalidBoolValue(3))
    );
    assert_eq!(
        TypedValue::from_bytes(AbiPrimitive::Address, &bytes),
        Err(Error::LengthMismatch { expected: 20, actual: 4 })
    );
    assert_eq!(
        TypedValue::from_bytes(AbiPrimitive::Hash, &[1; 32]),
        Ok(TypedValue::Hash([1; 32]))
    );
    assert_eq!(TypedValue::U16(1).kind(), AbiPrimitive::Integer(AbiInteger::U16));
    assert_eq!(TypedValue::String(String::new()).kind(), AbiPrimitive::String);
}
