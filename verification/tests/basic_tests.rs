use hmcdk::api::{
    call_contract, ecrecover, ecrecover_address, get_arg_str, get_sender_str, host_result,
    lookup_result, read_state_str, remote_handle, revert,
};
use hmcdk::basic::{app_main, balance_reply, parse_i64};
use hmcdk::error::{from_str, Error};
use std::collections::HashMap;

/// One invocation of the counter against a state kept in memory.
fn invoke_counter(
    state: &mut HashMap<Vec<u8>, Vec<u8>>,
    sender: &[u8],
    amount: &str,
) -> Result<(), Error> {
    let stored = state.get(sender).cloned().ok_or(Error::NotFound);
    let value = app_main(Ok(amount.as_bytes().to_vec()), stored)?;
    state.insert(sender.to_vec(), value);
    Ok(())
}

#[test]
fn counter_increment() {
    let mut state = HashMap::new();
    let sender = [7u8; 20];
    assert_eq!(invoke_counter(&mut state, &sender, "5"), Ok(()));
    assert_eq!(state.get(&sender[..]), Some(&b"5".to_vec()));
    assert_eq!(invoke_counter(&mut state, &sender, "3"), Ok(()));
    assert_eq!(state.get(&sender[..]), Some(&b"8".to_vec()));
    assert_eq!(
        invoke_counter(&mut state, &sender, "0"),
        Err(from_str("must specify positive value, not 0"))
    );
    assert_eq!(
        invoke_counter(&mut state, &sender, "-4"),
        Err(from_str("must specify positive value, not -4"))
    );
    assert_eq!(state.get(&sender[..]), Some(&b"8".to_vec()));
    assert_eq!(state.len(), 1);
}

#[test]
fn counter_rejects_what_is_no_amount() {
    assert_eq!(app_main(Err(Error::NotFound), Err(Error::NotFound)), Err(Error::NotFound));
    assert_eq!(
        app_main(Ok(b"five".to_vec()), Err(Error::NotFound)),
        Err(from_str("amount is not a number"))
    );
    assert_eq!(app_main(Ok(vec![0xff]), Err(Error::NotFound)), Err(Error::InvalidUtf8));
    assert_eq!(
        app_main(Ok(b"1".to_vec()), Ok(b"x".to_vec())),
        Err(from_str("stored value is not a number"))
    );
    assert_eq!(
        app_main(Ok(b"1".to_vec()), Ok(b"9223372036854775807".to_vec())),
        Err(from_str("counter overflow"))
    );
    assert_eq!(
        app_main(Ok(b"-9223372036854775808".to_vec()), Err(Error::NotFound)),
        Err(from_str("must specify positive value, not -9223372036854775808"))
    );
}

#[test]
fn counter_adds_to_what_is_stored() {
    assert_eq!(app_main(Ok(b"+12".to_vec()), Err(Error::HostCallFailure)), Ok(b"12".to_vec()));
    assert_eq!(app_main(Ok(b"10".to_vec()), Ok(b"-25".to_vec())), Ok(b"-15".to_vec()));
    assert_eq!(app_main(Ok(b"007".to_vec()), Ok(b"93".to_vec())), Ok(b"100".to_vec()));
    assert_eq!(
        app_main(Ok(b"1".to_vec()), Ok(b"9223372036854775806".to_vec())),
        Ok(b"9223372036854775807".to_vec())
    );
}

#[test]
fn decimal_numerals() {
    assert_eq!(parse_i64(b"0"), Some(0));
    assert_eq!(parse_i64(b"-0"), Some(0));
    assert_eq!(parse_i64(b"+42"), Some(42));
    assert_eq!(parse_i64(b"-42"), Some(-42));
    assert_eq!(parse_i64(b"0000000000000000000000012"), Some(12));
    assert_eq!(parse_i64(b"9223372036854775807"), Some(i64::MAX));
    assert_eq!(parse_i64(b"9223372036854775808"), None);
    assert_eq!(parse_i64(b"-9223372036854775808"), Some(i64::MIN));
    assert_eq!(parse_i64(b"-9223372036854775809"), None);
    assert_eq!(parse_i64(b"99999999999999999999999999"), None);
    for bad in [&b""[..], b"+", b"-", b" 1", b"1 ", b"1_000", b"--1", b"1.0", b"0x10"] {
        assert_eq!(parse_i64(bad), None);
    }
    for n in [0i64, 1, -1, 10, 99, 100, i64::MAX, i64::MIN] {
        assert_eq!(parse_i64(n.to_string().as_bytes()), Some(n));
    }
}

#[test]
fn balance_is_asked_of_the_token_contract() {
    let call = call_contract(&[0xab; 20], b"test_plus", &[b"x", b"yz"]);
    assert_eq!(call.address, vec![0xab; 20]);
    assert_eq!(call.entry, b"test_plus".to_vec());
    assert_eq!(call.frame, vec![0, 0, 0, 2, 0, 0, 0, 1, b'x', 0, 0, 0, 2, b'y', b'z']);

    let call = hmcdk::basic::call_contract(Ok(b"0x0102ff".to_vec())).unwrap();
    assert_eq!(call.address, vec![1, 2, 255]);
    assert_eq!(call.entry, b"get_balance".to_vec());
    assert_eq!(call.frame, vec![0, 0, 0, 0]);
    assert_eq!(hmcdk::basic::call_contract(Err(Error::NotFound)).err(), Some(Error::NotFound));
    assert_eq!(hmcdk::basic::call_contract(Ok(vec![0x80])).err(), Some(Error::InvalidUtf8));

    let reply = balance_reply(Ok(vec![0, 0, 0, 9]));
    assert!(reply.success);
    assert_eq!(reply.response, Some(vec![0, 0, 0, 9]));
    assert_eq!(reply.log, None);
    let reply = balance_reply(Err(Error::RemoteCallFailure));
    assert!(!reply.success);
    assert_eq!(reply.response, None);
    assert_eq!(reply.log, Some(b"failed to call contract".to_vec()));
}

#[test]
fn host_answers() {
    assert_eq!(host_result(0, [1u8; 32]), Ok([1u8; 32]));
    assert_eq!(host_result(32, 7), Ok(7));
    assert_eq!(host_result(-1, [1u8; 32]), Err(Error::HostCallFailure));
    assert_eq!(lookup_result(20, [2u8; 20]), Ok([2u8; 20]));
    assert_eq!(lookup_result(-1, [2u8; 20]), Err(Error::NotFound));
    assert_eq!(remote_handle(0), Ok(0));
    assert_eq!(remote_handle(17), Ok(17));
    assert_eq!(remote_handle(-1), Err(Error::RemoteCallFailure));
    assert_eq!(remote_handle(-2), Err(Error::HostCallFailure));
}

#[test]
fn signature_parts_are_checked() {
    let h = [0u8; 32];
    let sig = [0u8; 65];
    assert_eq!(ecrecover(&h, &sig[64..65], &sig[0..32], &sig[32..64]), Ok(()));
    assert_eq!(ecrecover_address(&h, &sig[64..65], &sig[0..32], &sig[32..64]), Ok(()));
    assert_eq!(
        ecrecover(&h[..31], &sig[..0], &sig[..1], &sig[..2]),
        Err(Error::LengthMismatch { expected: 32, actual: 31 })
    );
    assert_eq!(
        ecrecover(&h, &sig[..2], &sig[..1], &sig[..2]),
        Err(Error::LengthMismatch { expected: 1, actual: 2 })
    );
    assert_eq!(
        ecrecover(&h, &sig[..1], &sig[..33], &sig[..2]),
        Err(Error::LengthMismatch { expected: 32, actual: 33 })
    );
    assert_eq!(
        ecrecover_address(&h, &sig[..1], &sig[..32], &sig[..0]),
        Err(Error::LengthMismatch { expected: 32, actual: 0 })
    );
}

#[test]
fn reads_as_text() {
    assert_eq!(get_arg_str(Ok(b"5".to_vec())), Ok("5".to_string()));
    assert_eq!(get_arg_str(Ok(vec![0xc3, 0x28])), Err(Error::InvalidUtf8));
    assert_eq!(get_arg_str(Err(Error::NotFound)), Err(Error::NotFound));
    assert_eq!(read_state_str(Ok("caf\u{e9}".as_bytes().to_vec())), Ok("caf\u{e9}".to_string()));
    assert_eq!(read_state_str(Ok(vec![0xff])), Err(Error::InvalidUtf8));
    assert_eq!(read_state_str(Err(Error::HostCallFailure)), Err(Error::HostCallFailure));
}

#[test]
fn sender_as_text() {
    let mut sender = [0u8; 20];
    sender[0] = 1;
    sender[1] = 10;
    sender[2] = 16;
    sender[19] = 255;
    assert_eq!(get_sender_str(Ok(sender)), Ok(format!("{:X?}", sender)));
    assert_eq!(
        get_sender_str(Ok(sender)),
        Ok("[1, A, 10, 0, 0, 0, 0, 0, 0, 0, 0, 0, 0, 0, 0, 0, 0, 0, 0, FF]".to_string())
    );
    assert_eq!(get_sender_str(Err(Error::NotFound)), Err(Error::NotFound));
}

#[test]
fn revert_logs_and_fails() {
    let reply = revert("must specify positive value, not 0".to_string());
    assert_eq!(reply.log, Some(b"must specify positive value, not 0".to_vec()));
    assert_eq!(reply.response, None);
    assert!(!reply.success);
}
